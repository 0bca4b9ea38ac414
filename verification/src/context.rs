//! Bounded context assembly: what the model sees on every step.
//!
//! A context carries at most one current image and one previous keyframe,
//! plus capped lists of actions, events, windows and applications; the caps
//! live in [`ContextBudget`] and [`ContextBuilder`] enforces them, so the
//! context never grows with the step count.

use vstd::prelude::*;

use crate::decision::ActionKind;
use crate::elide::{truncate, truncated};
use crate::fmt::{decimal, push_decimal};
use crate::model::{rect_area, rect_is_empty, rect_union, ActionId, AppId, Rect, WindowId};
use crate::runtime::{
    close_reason_name, close_reason_str, payload_kind, payload_window, AppInfo, EventKind,
    EventPayload, ImagePayload, Observation, Position, RuntimeEvent, RuntimeInfo, Size,
    WindowInfo, WindowState,
};

verus! {

/// Task description handed to the agent.
#[derive(Debug, Clone)]
pub struct TaskDescription {
    /// What the agent must accomplish.
    pub goal: String,
    /// Optional machine-checkable success criterion.
    pub success_criteria: Option<String>,
    /// Optional strategy hints.
    pub hints: Vec<String>,
}

impl TaskDescription {
    /// A task from a goal string.
    pub fn new(goal: &str) -> (t: TaskDescription)
        ensures
            t.goal@ == goal@,
            t.success_criteria is None,
            t.hints@.len() == 0,
    {
        TaskDescription { goal: String::from_str(goal), success_criteria: None, hints: Vec::new() }
    }
}

/// Hard caps applied when assembling a context.
#[derive(Debug, Clone, Copy, PartialEq, Eq, Structural)]
pub struct ContextBudget {
    /// Maximum recent actions kept (most recent first).
    pub max_actions: usize,
    /// Maximum recent events kept after summarization.
    pub max_events: usize,
    /// Maximum windows kept (active window first).
    pub max_windows: usize,
    /// Maximum applications kept.
    pub max_apps: usize,
    /// Maximum rectangles kept from an observation's changed regions.
    pub max_changed_regions: usize,
    /// Images per context: one current image plus one previous keyframe.
    pub max_images: usize,
    /// Maximum characters per summary detail string.
    pub max_detail_chars: usize,
    /// Default downscale target for images sent to the provider.
    pub max_dimension: Option<u32>,
}

impl Default for ContextBudget {
    fn default() -> (b: ContextBudget)
        ensures
            b == (ContextBudget {
                max_actions: 8,
                max_events: 16,
                max_windows: 8,
                max_apps: 12,
                max_changed_regions: 4,
                max_images: 2,
                max_detail_chars: 160,
                max_dimension: Some(1024),
            }),
    {
        ContextBudget {
            max_actions: 8,
            max_events: 16,
            max_windows: 8,
            max_apps: 12,
            max_changed_regions: 4,
            max_images: 2,
            max_detail_chars: 160,
            max_dimension: Some(1024),
        }
    }
}

/// One executed action, as remembered by the context builder.
#[derive(Debug, Clone)]
pub struct ActionRecord {
    /// Loop step that executed the action.
    pub step: u32,
    /// Runtime-assigned id (input and state-mutating operations only).
    pub action_id: Option<ActionId>,
    /// Kind of action.
    pub kind: ActionKind,
    /// Target window, when applicable.
    pub window_id: Option<WindowId>,
    /// Window-relative position, when applicable.
    pub position: Option<Position>,
    /// Short human-readable detail.
    pub detail: String,
    /// Whether the action executed without error.
    pub ok: bool,
}

/// Compact projection of a runtime event (never the raw payload).
#[derive(Debug, Clone)]
pub struct EventSummary {
    /// Event kind.
    pub kind: EventKind,
    /// Global event sequence number.
    pub seq: u64,
    /// Monotonic milliseconds since runtime start.
    pub ts_ms: u64,
    /// Window the event belongs to, when applicable.
    pub window_id: Option<WindowId>,
    /// Short human-readable detail.
    pub detail: String,
}

/// The abstract value of an event summary.
pub struct EventSummaryView {
    /// Event kind.
    pub kind: EventKind,
    /// Global event sequence number.
    pub seq: u64,
    /// Monotonic milliseconds since runtime start.
    pub ts_ms: u64,
    /// Window the event belongs to, when applicable.
    pub window_id: Option<WindowId>,
    /// Detail text.
    pub detail: Seq<char>,
}

/// The abstract value of an event summary.
pub open spec fn summary_view(s: EventSummary) -> EventSummaryView {
    EventSummaryView {
        kind: s.kind,
        seq: s.seq,
        ts_ms: s.ts_ms,
        window_id: s.window_id,
        detail: s.detail@,
    }
}

/// The damage part of a commit description.
pub open spec fn damage_text(damage_rects: nat) -> Seq<char> {
    if damage_rects == 0 {
        "no damage"@
    } else if damage_rects == 1 {
        "1 damage rect"@
    } else {
        decimal(damage_rects) + " damage rects"@
    }
}

/// The description of a commit group: `commit N (D)` or, once commits
/// collapsed, `commit N (C commits, D)`.
pub open spec fn commit_text(commit_seq: u64, commits: u32, damage_rects: usize) -> Seq<char> {
    if commits > 1 {
        "commit "@ + decimal(commit_seq as nat) + " ("@ + decimal(commits as nat) + " commits, "@
            + damage_text(damage_rects as nat) + ")"@
    } else {
        "commit "@ + decimal(commit_seq as nat) + " ("@ + damage_text(damage_rects as nat) + ")"@
    }
}

/// Detail string for a commit group.
pub fn commit_detail(commit_seq: u64, commits: u32, damage_rects: usize) -> (s: String)
    ensures
        s@ == commit_text(commit_seq, commits, damage_rects),
{
    let mut damage = String::new();
    if damage_rects == 0 {
        damage.append("no damage");
    } else if damage_rects == 1 {
        damage.append("1 damage rect");
    } else {
        push_decimal(&mut damage, damage_rects as u64);
        damage.append(" damage rects");
    }
    assert(damage@ =~= damage_text(damage_rects as nat));
    let mut s = String::from_str("commit ");
    push_decimal(&mut s, commit_seq);
    s.append(" (");
    if commits > 1 {
        push_decimal(&mut s, commits as u64);
        s.append(" commits, ");
    }
    s.append(damage.as_str());
    s.append(")");
    s
}

/// The optional ` key=value` part of a description.
pub open spec fn opt_field(key: Seq<char>, value: Option<Seq<char>>) -> Seq<char> {
    match value {
        Some(v) => key + v,
        None => Seq::empty(),
    }
}

/// The human-readable, payload-free description of an event.
pub open spec fn event_text(p: EventPayload) -> Seq<char> {
    match p {
        EventPayload::WindowCreated { app_id, title, pid, .. } => "window created"@ + opt_field(
            " app="@,
            match app_id {
                Some(a) => Some(a.0@),
                None => None,
            },
        ) + opt_field(
            " title="@,
            match title {
                Some(t) => Some(t@),
                None => None,
            },
        ) + opt_field(
            " pid="@,
            match pid {
                Some(n) => Some(decimal(n as nat)),
                None => None,
            },
        ),
        EventPayload::WindowDestroyed { .. } => "window destroyed"@,
        EventPayload::WindowActivated { previous, .. } => match previous {
            Some(w) => "window activated (previous "@ + decimal(w.0 as nat) + ")"@,
            None => "window activated"@,
        },
        EventPayload::TitleChanged { title, .. } => match title {
            Some(t) => "title changed to "@ + t@,
            None => "title cleared"@,
        },
        EventPayload::SurfaceCommit { commit_seq, damage, .. } => commit_text(
            commit_seq,
            1,
            damage@.len() as usize,
        ),
        EventPayload::FocusChanged { window_id } => match window_id {
            Some(w) => "focus changed to "@ + decimal(w.0 as nat),
            None => "focus cleared"@,
        },
        EventPayload::PopupAppeared { popup_id, .. } => "popup "@ + decimal(popup_id as nat)
            + " appeared"@,
        EventPayload::PopupDisappeared { popup_id, .. } => "popup "@ + decimal(popup_id as nat)
            + " disappeared"@,
        EventPayload::AppLaunched { app_id, pid } => "app launched "@ + app_id.0@ + opt_field(
            " pid="@,
            match pid {
                Some(n) => Some(decimal(n as nat)),
                None => None,
            },
        ),
        EventPayload::Notification { notification } => "notification "@ + decimal(
            notification.id as nat,
        ) + " posted"@ + opt_field(
            " source="@,
            match notification.source {
                Some(s) => Some(s@),
                None => None,
            },
        ) + " title="@ + notification.title@,
        EventPayload::NotificationClosed { notification_id, reason } => "notification "@
            + decimal(notification_id as nat) + " closed ("@ + close_reason_name(reason) + ")"@,
        EventPayload::NotificationAction { notification_id, action_key } => "notification "@
            + decimal(notification_id as nat) + " action "@ + action_key@ + " invoked"@,
    }
}

/// Human-readable, payload-free description of one runtime event; damage is
/// reduced to a rectangle count.
pub fn describe_event(event: &RuntimeEvent) -> (s: String)
    ensures
        s@ == event_text(event.payload),
{
    match &event.payload {
        EventPayload::WindowCreated { app_id, title, pid, .. } => {
            let mut d = String::from_str("window created");
            let ghost d0 = d@;
            if let Some(app_id) = app_id {
                d.append(" app=");
                d.append(app_id.0.as_str());
            }
            let ghost d1 = d@;
            if let Some(title) = title {
                d.append(" title=");
                d.append(title.as_str());
            }
            let ghost d2 = d@;
            if let Some(pid) = pid {
                d.append(" pid=");
                push_decimal(&mut d, *pid as u64);
            }
            proof {
                let p = event.payload;
                if let EventPayload::WindowCreated { app_id, title, pid, .. } = p {
                    assert(d1 =~= d0 + opt_field(
                        " app="@,
                        match app_id {
                            Some(a) => Some(a.0@),
                            None => None,
                        },
                    ));
                    assert(d2 =~= d1 + opt_field(
                        " title="@,
                        match title {
                            Some(t) => Some(t@),
                            None => None,
                        },
                    ));
                    assert(d@ =~= d2 + opt_field(
                        " pid="@,
                        match pid {
                            Some(n) => Some(decimal(n as nat)),
                            None => None,
                        },
                    ));
                }
            }
            d
        },
        EventPayload::WindowDestroyed { .. } => String::from_str("window destroyed"),
        EventPayload::WindowActivated { previous, .. } => match previous {
            Some(w) => {
                let mut d = String::from_str("window activated (previous ");
                push_decimal(&mut d, w.0);
                d.append(")");
                d
            },
            None => String::from_str("window activated"),
        },
        EventPayload::TitleChanged { title, .. } => match title {
            Some(t) => {
                let mut d = String::from_str("title changed to ");
                d.append(t.as_str());
                d
            },
            None => String::from_str("title cleared"),
        },
        EventPayload::SurfaceCommit { commit_seq, damage, .. } => commit_detail(
            *commit_seq,
            1,
            damage.len(),
        ),
        EventPayload::FocusChanged { window_id } => match window_id {
            Some(w) => {
                let mut d = String::from_str("focus changed to ");
                push_decimal(&mut d, w.0);
                d
            },
            None => String::from_str("focus cleared"),
        },
        EventPayload::PopupAppeared { popup_id, .. } => {
            let mut d = String::from_str("popup ");
            push_decimal(&mut d, *popup_id);
            d.append(" appeared");
            d
        },
        EventPayload::PopupDisappeared { popup_id, .. } => {
            let mut d = String::from_str("popup ");
            push_decimal(&mut d, *popup_id);
            d.append(" disappeared");
            d
        },
        EventPayload::AppLaunched { app_id, pid } => {
            let mut d = String::from_str("app launched ");
            d.append(app_id.0.as_str());
            let ghost d1 = d@;
            if let Some(pid) = pid {
                d.append(" pid=");
                push_decimal(&mut d, *pid as u64);
            }
            proof {
                if let EventPayload::AppLaunched { pid, .. } = event.payload {
                    assert(d@ =~= d1 + opt_field(
                        " pid="@,
                        match pid {
                            Some(n) => Some(decimal(n as nat)),
                            None => None,
                        },
                    ));
                }
            }
            d
        },
        EventPayload::Notification { notification } => {
            let mut d = String::from_str("notification ");
            push_decimal(&mut d, notification.id);
            d.append(" posted");
            let ghost d1 = d@;
            if let Some(source) = &notification.source {
                d.append(" source=");
                d.append(source.as_str());
            }
            let ghost d2 = d@;
            d.append(" title=");
            d.append(notification.title.as_str());
            proof {
                assert(d2 =~= d1 + opt_field(
                    " source="@,
                    match notification.source {
                        Some(s) => Some(s@),
                        None => None,
                    },
                ));
            }
            d
        },
        EventPayload::NotificationClosed { notification_id, reason } => {
            let mut d = String::from_str("notification ");
            push_decimal(&mut d, *notification_id);
            d.append(" closed (");
            d.append(close_reason_str(*reason));
            d.append(")");
            d
        },
        EventPayload::NotificationAction { notification_id, action_key } => {
            let mut d = String::from_str("notification ");
            push_decimal(&mut d, *notification_id);
            d.append(" action ");
            d.append(action_key.as_str());
            d.append(" invoked");
            d
        },
    }
}

impl EventSummary {
    /// Summarize one runtime event, its detail truncated (silently) to
    /// `max_detail_chars` characters.
    pub fn from_event(event: &RuntimeEvent, max_detail_chars: usize) -> (s: EventSummary)
        ensures
            s.kind == payload_kind(event.payload),
            s.seq == event.seq,
            s.ts_ms == event.ts_ms,
            s.window_id == payload_window(event.payload),
            s.detail@ == truncated(event_text(event.payload), max_detail_chars as nat, Seq::empty()),
    {
        let text = describe_event(event);
        let detail = truncate(text.as_str(), max_detail_chars, "");
        proof {
            reveal_strlit("");
        }
        EventSummary {
            kind: event.kind(),
            seq: event.seq,
            ts_ms: event.ts_ms,
            window_id: event.window_id(),
            detail,
        }
    }
}

/// Bounded window metadata for the prompt.
#[derive(Debug, Clone)]
pub struct WindowSummary {
    /// Window id.
    pub id: WindowId,
    /// Resolved application id, when known.
    pub app_id: Option<AppId>,
    /// Title, when known.
    pub title: Option<String>,
    /// Whether this is the active window.
    pub active: bool,
    /// Window geometry.
    pub geometry: Rect,
    /// Number of mapped popups.
    pub popup_count: u32,
    /// Last surface commit sequence.
    pub last_commit_seq: u64,
}

/// A copy of an optional application id.
pub fn clone_app_id(a: &Option<AppId>) -> (r: Option<AppId>)
    ensures
        r == *a,
{
    match a {
        Some(id) => Some(AppId(id.0.clone())),
        None => None,
    }
}

/// The summary of a window, before the active-window override.
pub open spec fn window_summary_of(w: WindowInfo) -> WindowSummary {
    WindowSummary {
        id: w.id,
        app_id: w.app_id,
        title: w.title,
        active: w.state == WindowState::Active,
        geometry: w.geometry,
        popup_count: w.popup_count,
        last_commit_seq: w.last_commit_seq,
    }
}

impl WindowSummary {
    /// Project a window into the bounded form.
    pub fn from_window(window: &WindowInfo) -> (s: WindowSummary)
        ensures
            s == window_summary_of(*window),
    {
        WindowSummary {
            id: window.id,
            app_id: clone_app_id(&window.app_id),
            title: crate::source::clone_opt_string(&window.title),
            active: window.state == WindowState::Active,
            geometry: window.geometry,
            popup_count: window.popup_count,
            last_commit_seq: window.last_commit_seq,
        }
    }
}

/// Bounded application metadata for the prompt.
#[derive(Debug, Clone)]
pub struct AppSummary {
    /// Desktop-file id.
    pub id: AppId,
    /// Human-readable name.
    pub name: String,
    /// Freedesktop categories.
    pub categories: Vec<String>,
    /// Whether the app needs a terminal.
    pub terminal: bool,
}

/// Whether a summary reports an application's metadata.
pub open spec fn app_summary_of(s: AppSummary, a: AppInfo) -> bool {
    s.id == a.id && s.name == a.name && s.categories@ == a.categories@ && s.terminal == a.terminal
}

impl AppSummary {
    /// Project an application into the bounded form.
    pub fn from_app(app: &AppInfo) -> (s: AppSummary)
        ensures
            app_summary_of(s, *app),
    {
        AppSummary {
            id: AppId(app.id.0.clone()),
            name: app.name.clone(),
            categories: crate::source::clone_strings(&app.categories),
            terminal: app.terminal,
        }
    }
}

/// Runtime capabilities carried into every context.
#[derive(Debug, Clone)]
pub struct RuntimeSummary {
    /// AGP protocol version.
    pub protocol_version: u32,
    /// Chosen renderer.
    pub renderer: String,
    /// Virtual output size.
    pub output: Size,
    /// Milliseconds since runtime start.
    pub uptime_ms: u64,
}

impl RuntimeSummary {
    /// Project runtime capabilities into the context form.
    pub fn from_runtime(info: &RuntimeInfo) -> (s: RuntimeSummary)
        ensures
            s.protocol_version == info.protocol_version,
            s.renderer == info.renderer,
            s.output == info.output,
            s.uptime_ms == info.uptime_ms,
    {
        RuntimeSummary {
            protocol_version: info.protocol_version,
            renderer: info.renderer.clone(),
            output: info.output,
            uptime_ms: info.uptime_ms,
        }
    }
}

/// Consecutive surface commits of one window, collapsed into one summary.
#[derive(Debug, Clone, Copy, PartialEq, Eq, Structural)]
pub struct CommitGroup {
    /// The window whose commits are collapsed.
    pub window_id: WindowId,
    /// Commits collapsed so far.
    pub commits: u32,
    /// Damage rectangles across them.
    pub damage_rects: usize,
}

/// The abstract state of a context builder.
pub struct ContextView {
    /// The caps.
    pub budget: ContextBudget,
    /// Remembered actions, most recent first.
    pub actions: Seq<ActionRecord>,
    /// Remembered event summaries, most recent first.
    pub events: Seq<EventSummaryView>,
    /// The commit group the head event summary describes, if any.
    pub commit_group: Option<CommitGroup>,
    /// The current image.
    pub current_image: Option<ImagePayload>,
    /// The previous keyframe.
    pub keyframe: Option<ImagePayload>,
}

/// Stateful, bounded context assembler owned by the loop.
#[derive(Debug)]
pub struct ContextBuilder {
    budget: ContextBudget,
    actions: Vec<ActionRecord>,
    events: Vec<EventSummary>,
    commit_group: Option<CommitGroup>,
    current_image: Option<ImagePayload>,
    keyframe: Option<ImagePayload>,
}

impl View for ContextBuilder {
    type V = ContextView;

    closed spec fn view(&self) -> ContextView {
        ContextView {
            budget: self.budget,
            actions: self.actions@,
            events: self.events@.map_values(|e: EventSummary| summary_view(e)),
            commit_group: self.commit_group,
            current_image: self.current_image,
            keyframe: self.keyframe,
        }
    }
}

/// Number of images a builder holds.
pub open spec fn images_held(v: ContextView) -> nat {
    (if v.current_image is Some { 1nat } else { 0nat }) + (if v.keyframe is Some { 1nat } else { 0nat })
}

/// The builder's caps hold: at most `max_actions` actions, `max_events`
/// events, and `max_images` images (never more than two); a keyframe is only
/// kept beside a current image.
pub open spec fn within_budget(v: ContextView) -> bool {
    &&& v.actions.len() <= v.budget.max_actions
    &&& v.events.len() <= v.budget.max_events
    &&& images_held(v) <= v.budget.max_images
    &&& (v.keyframe is Some ==> v.current_image is Some)
}

/// `x` in front of `s`, keeping at most `cap` elements; a cap of zero keeps
/// nothing new.
pub open spec fn push_front_capped<A>(s: Seq<A>, x: A, cap: nat) -> Seq<A> {
    if cap == 0 {
        s
    } else if s.len() + 1 <= cap {
        seq![x] + s
    } else {
        (seq![x] + s).take(cap as int)
    }
}

/// The builder after recording one action.
pub open spec fn record_action_spec(v: ContextView, r: ActionRecord) -> ContextView {
    ContextView { actions: push_front_capped(v.actions, r, v.budget.max_actions as nat), ..v }
}

/// Recording an action puts it first, ahead of the earlier actions in their
/// order, and drops the oldest only when the cap is full; with a cap of zero
/// nothing is remembered. Nothing else of the builder changes.
pub proof fn lemma_record_action_keeps_newest(v: ContextView, r: ActionRecord)
    ensures
        ({
            let after = record_action_spec(v, r).actions;
            let cap = v.budget.max_actions as nat;
            &&& cap == 0 ==> after == v.actions
            &&& cap > 0 ==> after.len() == if v.actions.len() + 1 <= cap { v.actions.len() + 1 } else { cap }
            &&& cap > 0 ==> after[0] == r
            &&& cap > 0 ==> forall|k: int| 1 <= k < after.len() ==> #[trigger] after[k] == v.actions[k - 1]
        }),
        record_action_spec(v, r).events == v.events,
        record_action_spec(v, r).budget == v.budget,
        record_action_spec(v, r).current_image == v.current_image,
        record_action_spec(v, r).keyframe == v.keyframe,
        record_action_spec(v, r).commit_group == v.commit_group,
{
}

/// `n + k`, saturated at `u32::MAX`.
pub open spec fn sat_add32(n: u32, k: nat) -> u32 {
    if n + k <= u32::MAX { (n + k) as u32 } else { u32::MAX }
}

/// `n + k`, saturated at `usize::MAX`.
pub open spec fn sat_add_usize(n: usize, k: nat) -> usize {
    if n + k <= usize::MAX { (n + k) as usize } else { usize::MAX }
}

/// The summary of an event, its detail truncated to `max` characters.
pub open spec fn summary_of(e: RuntimeEvent, max: nat) -> EventSummaryView {
    EventSummaryView {
        kind: payload_kind(e.payload),
        seq: e.seq,
        ts_ms: e.ts_ms,
        window_id: payload_window(e.payload),
        detail: truncated(event_text(e.payload), max, Seq::empty()),
    }
}

/// The builder after recording one event: a commit of the window whose
/// commits the head summary collapses updates that summary in place (its
/// sequence, time and detail, which counts the commits and their damage); any
/// other event is summarized in front, the oldest dropped beyond `max_events`.
pub open spec fn record_event_spec(v: ContextView, e: RuntimeEvent) -> ContextView {
    let max = v.budget.max_detail_chars as nat;
    let cap = v.budget.max_events as nat;
    let pushed = push_front_capped(v.events, summary_of(e, max), cap);
    match e.payload {
        EventPayload::SurfaceCommit { window_id, commit_seq, damage } => {
            let fresh = CommitGroup { window_id, commits: 1, damage_rects: damage@.len() as usize };
            match v.commit_group {
                Some(g) => if g.window_id == window_id && v.events.len() > 0 {
                    let commits = sat_add32(g.commits, 1);
                    let rects = sat_add_usize(g.damage_rects, damage@.len());
                    ContextView {
                        events: v.events.update(
                            0,
                            EventSummaryView {
                                seq: e.seq,
                                ts_ms: e.ts_ms,
                                detail: truncated(commit_text(commit_seq, commits, rects), max, Seq::empty()),
                                ..v.events[0]
                            },
                        ),
                        commit_group: Some(CommitGroup { window_id, commits, damage_rects: rects }),
                        ..v
                    }
                } else {
                    ContextView { events: pushed, commit_group: Some(fresh), ..v }
                },
                None => ContextView { events: pushed, commit_group: Some(fresh), ..v },
            }
        },
        _ => ContextView { events: pushed, commit_group: None, ..v },
    }
}

/// The builder after recording a batch of events, in order; a zero event cap
/// clears the events and the commit group instead.
pub open spec fn record_events_spec(v: ContextView, es: Seq<RuntimeEvent>) -> ContextView
    decreases es.len(),
{
    if v.budget.max_events == 0 {
        ContextView { events: Seq::empty(), commit_group: None, ..v }
    } else if es.len() == 0 {
        v
    } else {
        record_event_spec(record_events_spec(v, es.drop_last()), es.last())
    }
}

/// The builder after setting the current image: `None` (or a zero image cap)
/// clears both slots; otherwise the previous image becomes the keyframe when
/// two images are allowed, and is dropped when only one is.
pub open spec fn set_image_spec(v: ContextView, image: Option<ImagePayload>) -> ContextView {
    match image {
        None => ContextView { current_image: None, keyframe: None, ..v },
        Some(img) => if v.budget.max_images == 0 {
            ContextView { current_image: None, keyframe: None, ..v }
        } else {
            ContextView {
                current_image: Some(img),
                keyframe: if v.budget.max_images >= 2 { v.current_image } else { None },
                ..v
            }
        },
    }
}

impl ContextBuilder {
    /// A builder with the given budget and nothing remembered.
    pub fn new(budget: ContextBudget) -> (b: ContextBuilder)
        ensures
            b@.budget == budget,
            b@.actions.len() == 0,
            b@.events.len() == 0,
            b@.commit_group is None,
            b@.current_image is None,
            b@.keyframe is None,
            within_budget(b@),
    {
        let b = ContextBuilder {
            budget,
            actions: Vec::new(),
            events: Vec::new(),
            commit_group: None,
            current_image: None,
            keyframe: None,
        };
        assert(b@.events =~= Seq::<EventSummaryView>::empty());
        b
    }

    /// The active budget.
    pub fn budget(&self) -> (b: &ContextBudget)
        ensures
            *b == self@.budget,
    {
        &self.budget
    }

    /// Number of remembered actions.
    pub fn action_count(&self) -> (n: usize)
        ensures
            n == self@.actions.len(),
    {
        self.actions.len()
    }

    /// Number of remembered events.
    pub fn event_count(&self) -> (n: usize)
        ensures
            n == self@.events.len(),
    {
        self.events.len()
    }

    /// Number of remembered images.
    pub fn image_count(&self) -> (n: usize)
        ensures
            n == images_held(self@),
    {
        let a: usize = if self.current_image.is_some() { 1 } else { 0 };
        let b: usize = if self.keyframe.is_some() { 1 } else { 0 };
        a + b
    }

    /// Record one executed action, most recent first, dropping the oldest
    /// beyond `max_actions` (a zero cap records nothing).
    pub fn record_action(&mut self, record: ActionRecord)
        requires
            within_budget(old(self)@),
        ensures
            final(self)@ == record_action_spec(old(self)@, record),
            within_budget(final(self)@),
    {
        if self.budget.max_actions == 0 {
            return;
        }
        let ghost before = self.actions@;
        self.actions.insert(0, record);
        assert(self.actions@ =~= seq![record] + before);
        self.actions.truncate(self.budget.max_actions);
        proof {
            if before.len() + 1 <= self.budget.max_actions {
                assert(self.actions@ =~= seq![record] + before);
            }
        }
    }

    /// Summarize and record runtime events, in order.
    pub fn record_events(&mut self, events: &Vec<RuntimeEvent>)
        requires
            within_budget(old(self)@),
        ensures
            final(self)@ == record_events_spec(old(self)@, events@),
            within_budget(final(self)@),
    {
        if self.budget.max_events == 0 {
            self.events.clear();
            self.commit_group = None;
            assert(self@.events =~= Seq::<EventSummaryView>::empty());
            return;
        }
        let ghost start = self@;
        let mut i: usize = 0;
        assert(events@.take(0) =~= Seq::<RuntimeEvent>::empty());
        while i < events.len()
            invariant
                i <= events.len(),
                start.budget.max_events > 0,
                self@.budget == start.budget,
                self@ == record_events_spec(start, events@.take(i as int)),
                within_budget(self@),
            decreases events.len() - i,
        {
            self.record_event(&events[i]);
            proof {
                let t1 = events@.take(i + 1);
                assert(t1.drop_last() =~= events@.take(i as int));
                assert(t1.last() == events@[i as int]);
            }
            i += 1;
        }
        assert(events@.take(events.len() as int) =~= events@);
    }

    /// Record one event, collapsing it into the head summary when it is a
    /// commit of the window the head's commit group describes.
    fn record_event(&mut self, event: &RuntimeEvent)
        requires
            within_budget(old(self)@),
            old(self)@.budget.max_events > 0,
        ensures
            final(self)@ == record_event_spec(old(self)@, *event),
            within_budget(final(self)@),
    {
        let summary = EventSummary::from_event(event, self.budget.max_detail_chars);
        if let EventPayload::SurfaceCommit { window_id, commit_seq, damage } = &event.payload {
            let mut collapsed: Option<(u32, usize)> = None;
            if let Some(group) = self.commit_group {
                if group.window_id == *window_id {
                    let commits: u32 = if group.commits < u32::MAX { group.commits + 1 } else { u32::MAX };
                    let rects: usize = if group.damage_rects <= usize::MAX - damage.len() {
                        group.damage_rects + damage.len()
                    } else {
                        usize::MAX
                    };
                    self.commit_group = Some(CommitGroup { window_id: *window_id, commits, damage_rects: rects });
                    collapsed = Some((commits, rects));
                }
            }
            if let Some((commits, rects)) = collapsed {
                if self.events.len() > 0 {
                    let text = commit_detail(*commit_seq, commits, rects);
                    let detail = truncate(text.as_str(), self.budget.max_detail_chars, "");
                    proof {
                        reveal_strlit("");
                    }
                    let head = &self.events[0];
                    let updated = EventSummary {
                        kind: head.kind,
                        seq: summary.seq,
                        ts_ms: summary.ts_ms,
                        window_id: head.window_id,
                        detail,
                    };
                    self.events.set(0, updated);
                    proof {
                        assert(self@.events =~= old(self)@.events.update(
                            0,
                            EventSummaryView {
                                seq: event.seq,
                                ts_ms: event.ts_ms,
                                detail: updated.detail@,
                                ..old(self)@.events[0]
                            },
                        ));
                    }
                    return;
                }
            }
            self.commit_group = Some(CommitGroup { window_id: *window_id, commits: 1, damage_rects: damage.len() });
        } else {
            self.commit_group = None;
        }
        let ghost before = self.events@;
        self.events.insert(0, summary);
        assert(self.events@ =~= seq![summary] + before);
        self.events.truncate(self.budget.max_events);
        proof {
            assert(summary_view(summary) == summary_of(*event, self.budget.max_detail_chars as nat));
            if before.len() + 1 <= self.budget.max_events {
                assert(self@.events =~= seq![summary_of(*event, self.budget.max_detail_chars as nat)]
                    + old(self)@.events);
            } else {
                assert(self@.events =~= (seq![summary_of(*event, self.budget.max_detail_chars as nat)]
                    + old(self)@.events).take(self.budget.max_events as int));
            }
        }
    }

    /// Set the current image, rotating the previous one into the keyframe
    /// slot; `None` clears both.
    pub fn set_image(&mut self, image: Option<ImagePayload>)
        requires
            within_budget(old(self)@),
        ensures
            final(self)@ == set_image_spec(old(self)@, image),
            within_budget(final(self)@),
    {
        match image {
            None => {
                self.clear_image();
            },
            Some(img) => {
                if self.budget.max_images == 0 {
                    self.clear_image();
                    return;
                }
                let previous = self.current_image.take();
                self.current_image = Some(img);
                self.keyframe = if self.budget.max_images >= 2 { previous } else { None };
            },
        }
    }

    /// Drop both image slots.
    pub fn clear_image(&mut self)
        ensures
            final(self)@ == (ContextView { current_image: None, keyframe: None, ..old(self)@ }),
    {
        self.current_image = None;
        self.keyframe = None;
    }

    /// Drop all accumulated state.
    pub fn reset(&mut self)
        ensures
            final(self)@ == (ContextView {
                actions: Seq::empty(),
                events: Seq::empty(),
                commit_group: None,
                current_image: None,
                keyframe: None,
                ..old(self)@
            }),
            within_budget(final(self)@),
    {
        self.actions.clear();
        self.events.clear();
        self.commit_group = None;
        self.clear_image();
        assert(self@.events =~= Seq::<EventSummaryView>::empty());
        assert(self@.actions =~= Seq::<ActionRecord>::empty());
    }
}

/// Recording a commit of the window whose commits the head summary already
/// collapses never adds a summary.
pub proof fn lemma_commits_collapse(v: ContextView, e: RuntimeEvent)
    requires
        e.payload is SurfaceCommit,
        v.commit_group is Some,
        v.commit_group->0.window_id == e.payload->SurfaceCommit_window_id,
        v.events.len() > 0,
    ensures
        record_event_spec(v, e).events.len() == v.events.len(),
{
}

/// Images rotate: after two images under a two-image budget the second is
/// current and the first is the keyframe; under a one-image budget only the
/// second is kept.
pub proof fn lemma_image_rotation(v: ContextView, a: ImagePayload, b: ImagePayload)
    requires
        v.budget.max_images >= 1,
    ensures
        set_image_spec(set_image_spec(v, Some(a)), Some(b)).current_image == Some(b),
        v.budget.max_images >= 2 ==> set_image_spec(set_image_spec(v, Some(a)), Some(b)).keyframe
            == Some(a),
        v.budget.max_images == 1 ==> set_image_spec(set_image_spec(v, Some(a)), Some(b)).keyframe is None,
{
}

/// Whether window summary `a` sorts before-or-with `b`: active windows first,
/// then the most recent commit, then the smaller id.
pub open spec fn window_le(a: WindowSummary, b: WindowSummary) -> bool {
    if a.active != b.active {
        a.active
    } else if a.last_commit_seq != b.last_commit_seq {
        a.last_commit_seq > b.last_commit_seq
    } else {
        a.id.0 <= b.id.0
    }
}

/// The position a stable insertion puts `x` at in `s`: before the first
/// element that sorts strictly after it.
pub open spec fn window_insert_pos(s: Seq<WindowSummary>, x: WindowSummary) -> int
    decreases s.len(),
{
    if s.len() == 0 {
        0
    } else if !window_le(s[0], x) {
        0
    } else {
        1 + window_insert_pos(s.drop_first(), x)
    }
}

/// The windows stably sorted by [`window_le`].
pub open spec fn sort_windows(s: Seq<WindowSummary>) -> Seq<WindowSummary>
    decreases s.len(),
{
    if s.len() == 0 {
        Seq::empty()
    } else {
        let sorted = sort_windows(s.drop_last());
        sorted.insert(window_insert_pos(sorted, s.last()), s.last())
    }
}

/// The summary of a window with the active-window override applied.
pub open spec fn summary_with_active(w: WindowInfo, active: Option<WindowId>) -> WindowSummary {
    let s = window_summary_of(w);
    WindowSummary {
        active: s.active || match active {
            Some(a) => a == w.id,
            None => false,
        },
        ..s
    }
}

/// The windows a context lists: every window summarized (the reported active
/// window marked active), stably sorted, at most `max` of them.
pub open spec fn context_windows(ws: Seq<WindowInfo>, active: Option<WindowId>, max: nat) -> Seq<
    WindowSummary,
> {
    let sorted = sort_windows(ws.map_values(|w: WindowInfo| summary_with_active(w, active)));
    if sorted.len() <= max {
        sorted
    } else {
        sorted.take(max as int)
    }
}

proof fn lemma_window_insert_pos(s: Seq<WindowSummary>, x: WindowSummary, k: int)
    requires
        0 <= k <= s.len(),
        forall|j: int| 0 <= j < k ==> window_le(#[trigger] s[j], x),
        k == s.len() || !window_le(s[k], x),
    ensures
        window_insert_pos(s, x) == k,
    decreases s.len(),
{
    if s.len() > 0 && k > 0 {
        assert forall|j: int| 0 <= j < k - 1 implies window_le(#[trigger] s.drop_first()[j], x) by {
            assert(s.drop_first()[j] == s[j + 1]);
        }
        if k < s.len() {
            assert(s.drop_first()[k - 1] == s[k]);
        }
        lemma_window_insert_pos(s.drop_first(), x, k - 1);
    }
}

/// Executable form of [`window_le`].
fn window_before(a: &WindowSummary, b: &WindowSummary) -> (r: bool)
    ensures
        r == window_le(*a, *b),
{
    if a.active != b.active {
        a.active
    } else if a.last_commit_seq != b.last_commit_seq {
        a.last_commit_seq > b.last_commit_seq
    } else {
        a.id.0 <= b.id.0
    }
}

/// The window list of a context.
fn build_windows(windows: &[WindowInfo], active: Option<WindowId>, max: usize) -> (out: Vec<
    WindowSummary,
>)
    ensures
        out@ == context_windows(windows@, active, max as nat),
{
    let ghost input = windows@.map_values(|w: WindowInfo| summary_with_active(w, active));
    let mut sorted: Vec<WindowSummary> = Vec::new();
    let mut i: usize = 0;
    assert(input.take(0) =~= Seq::<WindowSummary>::empty());
    while i < windows.len()
        invariant
            i <= windows.len(),
            input == windows@.map_values(|w: WindowInfo| summary_with_active(w, active)),
            sorted@ == sort_windows(input.take(i as int)),
        decreases windows.len() - i,
    {
        let mut summary = WindowSummary::from_window(&windows[i]);
        if let Some(a) = active {
            summary.active = summary.active || a == windows[i].id;
        }
        assert(summary == input[i as int]);
        let mut pos: usize = 0;
        while pos < sorted.len() && window_before(&sorted[pos], &summary)
            invariant
                pos <= sorted.len(),
                forall|j: int| 0 <= j < pos ==> window_le(#[trigger] sorted@[j], summary),
            decreases sorted.len() - pos,
        {
            pos += 1;
        }
        proof {
            lemma_window_insert_pos(sorted@, summary, pos as int);
            let t1 = input.take(i + 1);
            assert(t1.drop_last() =~= input.take(i as int));
            assert(t1.last() == summary);
        }
        sorted.insert(pos, summary);
        i += 1;
    }
    assert(input.take(windows.len() as int) =~= input);
    if sorted.len() > max {
        sorted.truncate(max);
    }
    sorted
}

proof fn lemma_window_insert_pos_props(s: Seq<WindowSummary>, x: WindowSummary)
    ensures
        0 <= window_insert_pos(s, x) <= s.len(),
        forall|j: int| 0 <= j < window_insert_pos(s, x) ==> window_le(#[trigger] s[j], x),
        window_insert_pos(s, x) < s.len() ==> !window_le(s[window_insert_pos(s, x)], x),
    decreases s.len(),
{
    if s.len() > 0 && window_le(s[0], x) {
        lemma_window_insert_pos_props(s.drop_first(), x);
        assert forall|j: int| 0 <= j < window_insert_pos(s, x) implies window_le(#[trigger] s[j], x) by {
            if j > 0 {
                assert(s[j] == s.drop_first()[j - 1]);
            }
        }
    }
}

/// The window order is total and transitive.
proof fn lemma_window_le_order(a: WindowSummary, b: WindowSummary, c: WindowSummary)
    ensures
        window_le(a, b) || window_le(b, a),
        window_le(a, b) && window_le(b, c) ==> window_le(a, c),
{
}

/// A context's windows come active first, then by most recent commit, then by
/// id, and there are `min(n, max)` of them.
pub proof fn lemma_context_windows_sorted(ws: Seq<WindowInfo>, active: Option<WindowId>, max: nat)
    ensures
        forall|i: int, j: int|
            0 <= i < j < context_windows(ws, active, max).len() ==> window_le(
                #[trigger] context_windows(ws, active, max)[i],
                #[trigger] context_windows(ws, active, max)[j],
            ),
        context_windows(ws, active, max).len() == if ws.len() <= max { ws.len() } else { max },
{
    let input = ws.map_values(|w: WindowInfo| summary_with_active(w, active));
    lemma_sort_windows(input);
}

/// The windows a context lists are ordered on their fields: an active window
/// never follows an inactive one; among windows equally active, a window never
/// follows one whose last commit is older; among those with the same last
/// commit too, the smaller id comes first.
pub proof fn lemma_context_windows_order(ws: Seq<WindowInfo>, active: Option<WindowId>, max: nat)
    ensures
        forall|i: int, j: int|
            0 <= i < j < context_windows(ws, active, max).len() ==> {
                let a = #[trigger] context_windows(ws, active, max)[i];
                let b = #[trigger] context_windows(ws, active, max)[j];
                &&& (a.active || !b.active)
                &&& (a.active == b.active ==> a.last_commit_seq >= b.last_commit_seq)
                &&& (a.active == b.active && a.last_commit_seq == b.last_commit_seq ==> a.id.0 <= b.id.0)
            },
{
    lemma_context_windows_sorted(ws, active, max);
}

/// Sorting keeps every window: each input window stands somewhere in the
/// sorted list.
proof fn lemma_sort_windows_keeps(s: Seq<WindowSummary>, k: int)
    requires
        0 <= k < s.len(),
    ensures
        exists|m: int| 0 <= m < sort_windows(s).len() && sort_windows(s)[m] == s[k],
    decreases s.len(),
{
    let prev = sort_windows(s.drop_last());
    let x = s.last();
    lemma_sort_windows(s.drop_last());
    lemma_window_insert_pos_props(prev, x);
    let p = window_insert_pos(prev, x);
    let r = prev.insert(p, x);
    assert(sort_windows(s) == r);
    if k == s.len() - 1 {
        assert(r[p] == s[k]);
    } else {
        lemma_sort_windows_keeps(s.drop_last(), k);
        let m = choose|m: int| 0 <= m < prev.len() && prev[m] == s.drop_last()[k];
        if m < p {
            assert(r[m] == s[k]);
        } else {
            assert(r[m + 1] == s[k]);
        }
    }
}

/// A context lists the windows that come first: an input window it leaves
/// out is preceded, on the fields, by every window it lists (an active one
/// is never dropped for an inactive one, nor a window for one with an older
/// last commit).
pub proof fn lemma_context_windows_keep_the_first(ws: Seq<WindowInfo>, active: Option<WindowId>, max: nat)
    ensures
        forall|i: int, k: int|
            0 <= i < ws.len() && 0 <= k < context_windows(ws, active, max).len() ==> {
                let x = summary_with_active(#[trigger] ws[i], active);
                let y = #[trigger] context_windows(ws, active, max)[k];
                ||| exists|m: int|
                    0 <= m < context_windows(ws, active, max).len() && context_windows(ws, active, max)[m] == x
                ||| (y.active && !x.active)
                ||| (y.active == x.active && y.last_commit_seq >= x.last_commit_seq)
            },
{
    let input = ws.map_values(|w: WindowInfo| summary_with_active(w, active));
    let sorted = sort_windows(input);
    let out = context_windows(ws, active, max);
    lemma_sort_windows(input);
    assert forall|i: int, k: int| 0 <= i < ws.len() && 0 <= k < out.len() implies {
        let x = summary_with_active(#[trigger] ws[i], active);
        let y = #[trigger] out[k];
        ||| exists|m: int| 0 <= m < out.len() && out[m] == x
        ||| (y.active && !x.active)
        ||| (y.active == x.active && y.last_commit_seq >= x.last_commit_seq)
    } by {
        let x = summary_with_active(ws[i], active);
        assert(input[i] == x);
        lemma_sort_windows_keeps(input, i);
        let m = choose|m: int| 0 <= m < sorted.len() && sorted[m] == input[i];
        if m < out.len() {
            assert(out[m] == x);
        } else {
            assert(out[k] == sorted[k]);
            assert(window_le(sorted[k], sorted[m]));
        }
    }
}

/// Stable insertion sorting by [`window_le`] keeps the length and sorts.
pub proof fn lemma_sort_windows(s: Seq<WindowSummary>)
    ensures
        sort_windows(s).len() == s.len(),
        forall|i: int, j: int|
            0 <= i < j < sort_windows(s).len() ==> window_le(
                #[trigger] sort_windows(s)[i],
                #[trigger] sort_windows(s)[j],
            ),
    decreases s.len(),
{
    if s.len() > 0 {
        let prev = sort_windows(s.drop_last());
        lemma_sort_windows(s.drop_last());
        let x = s.last();
        let p = window_insert_pos(prev, x);
        lemma_window_insert_pos_props(prev, x);
        let r = prev.insert(p, x);
        assert forall|i: int, j: int| 0 <= i < j < r.len() implies window_le(#[trigger] r[i], #[trigger] r[j]) by {
            if j < p {
                assert(r[i] == prev[i] && r[j] == prev[j]);
            } else if j == p {
                assert(r[i] == prev[i]);
            } else if i < p {
                assert(r[i] == prev[i] && r[j] == prev[j - 1]);
                if p < prev.len() {
                    lemma_window_le_order(prev[i], x, prev[p]);
                    lemma_window_le_order(x, prev[p], prev[j - 1]);
                    lemma_window_le_order(prev[i], prev[p], prev[j - 1]);
                    if p < j - 1 {
                        assert(window_le(prev[p], prev[j - 1]));
                    }
                }
            } else if i == p {
                assert(r[j] == prev[j - 1]);
                lemma_window_le_order(x, prev[p], prev[j - 1]);
                lemma_window_le_order(prev[p], x, prev[j - 1]);
                if p < j - 1 {
                    assert(window_le(prev[p], prev[j - 1]));
                }
            } else {
                assert(r[i] == prev[i - 1] && r[j] == prev[j - 1]);
            }
        }
    }
}

/// Whether region `a` sorts before-or-with `b`: larger area first, then by
/// `(y, x, h, w)`.
pub open spec fn region_le(a: Rect, b: Rect) -> bool {
    if rect_area(a) != rect_area(b) {
        rect_area(a) > rect_area(b)
    } else if a.y != b.y {
        a.y < b.y
    } else if a.x != b.x {
        a.x < b.x
    } else if a.h != b.h {
        a.h < b.h
    } else {
        a.w <= b.w
    }
}

/// The position a stable insertion puts `x` at in `s`.
pub open spec fn region_insert_pos(s: Seq<Rect>, x: Rect) -> int
    decreases s.len(),
{
    if s.len() == 0 {
        0
    } else if !region_le(s[0], x) {
        0
    } else {
        1 + region_insert_pos(s.drop_first(), x)
    }
}

/// The regions stably sorted by [`region_le`].
pub open spec fn sort_regions(s: Seq<Rect>) -> Seq<Rect>
    decreases s.len(),
{
    if s.len() == 0 {
        Seq::empty()
    } else {
        let sorted = sort_regions(s.drop_last());
        sorted.insert(region_insert_pos(sorted, s.last()), s.last())
    }
}

/// The bounds of a list of rectangles (the empty rectangle for none).
pub open spec fn bounds_of(s: Seq<Rect>) -> Rect
    decreases s.len(),
{
    if s.len() == 0 {
        Rect { x: 0, y: 0, w: 0, h: 0 }
    } else {
        rect_union(bounds_of(s.drop_last()), s.last())
    }
}

/// The changed regions a context keeps: the non-empty ones, and when there
/// are more than `cap`, the `cap` largest with every dropped rectangle folded
/// into the bounds of the last one kept.
pub open spec fn trimmed_regions(regions: Seq<Rect>, cap: nat) -> Seq<Rect> {
    let kept = regions.filter(|r: Rect| !rect_is_empty(r));
    if kept.len() <= cap {
        kept
    } else if cap == 0 {
        Seq::empty()
    } else {
        let sorted = sort_regions(kept);
        let head = sorted.take(cap as int);
        let dropped = sorted.skip(cap as int);
        head.update(cap - 1, rect_union(head[cap - 1], bounds_of(dropped)))
    }
}

proof fn lemma_region_insert_pos(s: Seq<Rect>, x: Rect, k: int)
    requires
        0 <= k <= s.len(),
        forall|j: int| 0 <= j < k ==> region_le(#[trigger] s[j], x),
        k == s.len() || !region_le(s[k], x),
    ensures
        region_insert_pos(s, x) == k,
    decreases s.len(),
{
    if s.len() > 0 && k > 0 {
        assert forall|j: int| 0 <= j < k - 1 implies region_le(#[trigger] s.drop_first()[j], x) by {
            assert(s.drop_first()[j] == s[j + 1]);
        }
        if k < s.len() {
            assert(s.drop_first()[k - 1] == s[k]);
        }
        lemma_region_insert_pos(s.drop_first(), x, k - 1);
    }
}

fn region_before(a: &Rect, b: &Rect) -> (r: bool)
    ensures
        r == region_le(*a, *b),
{
    let aa = a.area();
    let ba = b.area();
    if aa != ba {
        aa > ba
    } else if a.y != b.y {
        a.y < b.y
    } else if a.x != b.x {
        a.x < b.x
    } else if a.h != b.h {
        a.h < b.h
    } else {
        a.w <= b.w
    }
}

proof fn lemma_sort_regions_len(s: Seq<Rect>)
    ensures
        sort_regions(s).len() == s.len(),
    decreases s.len(),
{
    if s.len() > 0 {
        lemma_sort_regions_len(s.drop_last());
        let prev = sort_regions(s.drop_last());
        lemma_region_insert_pos_bounds(prev, s.last());
    }
}

proof fn lemma_region_insert_pos_bounds(s: Seq<Rect>, x: Rect)
    ensures
        0 <= region_insert_pos(s, x) <= s.len(),
    decreases s.len(),
{
    if s.len() > 0 {
        lemma_region_insert_pos_bounds(s.drop_first(), x);
    }
}

/// Reduce `regions` to at most `cap` rectangles, largest area first; dropped
/// rectangles are folded into the bounds of the last one kept.
pub fn trim_regions(regions: &[Rect], cap: usize) -> (out: Vec<Rect>)
    ensures
        out@ == trimmed_regions(regions@, cap as nat),
{
    let ghost keep_pred = |r: Rect| !rect_is_empty(r);
    let mut kept: Vec<Rect> = Vec::new();
    let mut i: usize = 0;
    while i < regions.len()
        invariant
            i <= regions.len(),
            kept@ == regions@.take(i as int).filter(keep_pred),
            keep_pred == (|r: Rect| !rect_is_empty(r)),
        decreases regions.len() - i,
    {
        let r = regions[i];
        proof {
            let t1 = regions@.take(i + 1);
            assert(t1.drop_last() =~= regions@.take(i as int));
            assert(t1.last() == r);
            assert(t1 =~= regions@.take(i as int).push(r));
            regions@.take(i as int).lemma_filter_push(r, keep_pred);
        }
        if !r.is_empty() {
            kept.push(r);
        }
        i += 1;
    }
    assert(regions@.take(regions.len() as int) =~= regions@);
    if kept.len() <= cap {
        return kept;
    }
    if cap == 0 {
        return Vec::new();
    }
    let ghost all = kept@;
    let mut sorted: Vec<Rect> = Vec::new();
    let mut k: usize = 0;
    assert(all.take(0) =~= Seq::<Rect>::empty());
    while k < kept.len()
        invariant
            k <= kept.len(),
            all == kept@,
            sorted@ == sort_regions(all.take(k as int)),
            sorted@.len() == k,
        decreases kept.len() - k,
    {
        let x = kept[k];
        let mut pos: usize = 0;
        while pos < sorted.len() && region_before(&sorted[pos], &x)
            invariant
                pos <= sorted.len(),
                forall|j: int| 0 <= j < pos ==> region_le(#[trigger] sorted@[j], x),
            decreases sorted.len() - pos,
        {
            pos += 1;
        }
        proof {
            lemma_region_insert_pos(sorted@, x, pos as int);
            let t1 = all.take(k + 1);
            assert(t1.drop_last() =~= all.take(k as int));
            assert(t1.last() == x);
        }
        sorted.insert(pos, x);
        k += 1;
    }
    assert(all.take(kept.len() as int) =~= all);
    let mut bounds = Rect::empty();
    let mut d: usize = cap;
    while d < sorted.len()
        invariant
            cap <= d <= sorted.len(),
            bounds == bounds_of(sorted@.skip(cap as int).take(d - cap)),
        decreases sorted.len() - d,
    {
        proof {
            let t1 = sorted@.skip(cap as int).take(d + 1 - cap);
            assert(t1.drop_last() =~= sorted@.skip(cap as int).take(d - cap));
            assert(t1.last() == sorted@[d as int]);
        }
        bounds = bounds.union(&sorted[d]);
        d += 1;
    }
    assert(sorted@.skip(cap as int).take(sorted.len() - cap) =~= sorted@.skip(cap as int));
    let mut out: Vec<Rect> = Vec::new();
    let mut h: usize = 0;
    while h < cap
        invariant
            h <= cap,
            cap < sorted.len(),
            out@ == sorted@.take(h as int),
        decreases cap - h,
    {
        out.push(sorted[h]);
        assert(sorted@.take(h + 1) =~= sorted@.take(h as int).push(sorted@[h as int]));
        h += 1;
    }
    let last = out[cap - 1].union(&bounds);
    out.set(cap - 1, last);
    out
}

/// The complete, bounded prompt context for one decision.
#[derive(Debug, Clone)]
pub struct AgentContext {
    /// Task goal.
    pub task: String,
    /// Optional success criterion.
    pub success_criteria: Option<String>,
    /// Current step (0-based).
    pub step: u32,
    /// Step budget.
    pub max_steps: u32,
    /// Runtime capabilities, when known.
    pub runtime: Option<RuntimeSummary>,
    /// Bounded window list (active first).
    pub windows: Vec<WindowSummary>,
    /// Active window id, when known.
    pub active_window: Option<WindowId>,
    /// Bounded application list.
    pub apps: Vec<AppSummary>,
    /// Recent executed actions, most recent first.
    pub recent_actions: Vec<ActionRecord>,
    /// Recent runtime events, summarized, most recent first.
    pub recent_events: Vec<EventSummary>,
    /// Latest observation, its changed regions trimmed to the budget.
    pub observation: Option<Observation>,
    /// Latest accessibility outline of the observed window, when fetched.
    pub accessibility: Option<String>,
    /// Last error the loop hit.
    pub last_error: Option<String>,
    /// Current image (at most one).
    pub image: Option<ImagePayload>,
    /// Previous keyframe (at most one; always older than `image`).
    pub keyframe: Option<ImagePayload>,
}

impl AgentContext {
    /// Number of embedded images.
    pub fn image_count(&self) -> (n: usize)
        ensures
            n == (if self.image is Some { 1nat } else { 0nat }) + (if self.keyframe is Some {
                1nat
            } else {
                0nat
            }),
    {
        let a: usize = if self.image.is_some() { 1 } else { 0 };
        let b: usize = if self.keyframe.is_some() { 1 } else { 0 };
        a + b
    }

    /// Total encoded payload size carried by the embedded images, in
    /// characters of their (ASCII, base64) encoding, saturated.
    pub fn image_bytes(&self) -> (n: usize)
        ensures
            n == ({
                let a: nat = match self.image {
                    Some(i) => i.data@.len(),
                    None => 0,
                };
                let b: nat = match self.keyframe {
                    Some(i) => i.data@.len(),
                    None => 0,
                };
                if a + b <= usize::MAX { (a + b) as usize } else { usize::MAX }
            }),
    {
        let a: usize = match &self.image {
            Some(i) => i.data.as_str().unicode_len(),
            None => 0,
        };
        let b: usize = match &self.keyframe {
            Some(i) => i.data.as_str().unicode_len(),
            None => 0,
        };
        assert(a == match self.image {
            Some(i) => i.data@.len(),
            None => 0nat,
        });
        if a <= usize::MAX - b { a + b } else { usize::MAX }
    }
}

/// Live runtime facts the loop supplies when building a context.
#[derive(Debug, Clone, Copy)]
pub struct ContextInput<'a> {
    /// Task description.
    pub task: &'a TaskDescription,
    /// Current step index (0-based).
    pub step: u32,
    /// Step budget.
    pub max_steps: u32,
    /// Runtime info, when known.
    pub runtime: Option<&'a RuntimeInfo>,
    /// Current window list.
    pub windows: &'a [WindowInfo],
    /// Active window id.
    pub active_window: Option<WindowId>,
    /// Apps discovered by the most recent `list_apps`.
    pub apps: &'a [AppInfo],
    /// Latest observation.
    pub observation: Option<&'a Observation>,
    /// Latest accessibility outline.
    pub accessibility: Option<&'a str>,
    /// Last error message shown to the agent.
    pub last_error: Option<&'a str>,
}

/// A copy of a vector of plain values.
pub fn copy_vec<T: Copy>(v: &Vec<T>) -> (r: Vec<T>)
    ensures
        r@ == v@,
{
    let mut r: Vec<T> = Vec::new();
    let mut i: usize = 0;
    while i < v.len()
        invariant
            i <= v.len(),
            r@ == v@.take(i as int),
        decreases v.len() - i,
    {
        r.push(v[i]);
        assert(v@.take(i + 1) =~= v@.take(i as int).push(v@[i as int]));
        i += 1;
    }
    assert(v@.take(v.len() as int) =~= v@);
    r
}

/// A copy of an image.
pub fn clone_image(i: &ImagePayload) -> (r: ImagePayload)
    ensures
        r == *i,
{
    ImagePayload { width: i.width, height: i.height, data: i.data.clone() }
}

/// A copy of an optional image.
pub fn clone_opt_image(i: &Option<ImagePayload>) -> (r: Option<ImagePayload>)
    ensures
        r == *i,
{
    match i {
        Some(img) => Some(clone_image(img)),
        None => None,
    }
}

/// A copy of an action record.
pub fn clone_action(a: &ActionRecord) -> (r: ActionRecord)
    ensures
        r == *a,
{
    ActionRecord {
        step: a.step,
        action_id: a.action_id,
        kind: a.kind,
        window_id: a.window_id,
        position: a.position,
        detail: a.detail.clone(),
        ok: a.ok,
    }
}

/// A copy of an event summary.
pub fn clone_summary(e: &EventSummary) -> (r: EventSummary)
    ensures
        r == *e,
{
    EventSummary { kind: e.kind, seq: e.seq, ts_ms: e.ts_ms, window_id: e.window_id, detail: e.detail.clone() }
}

/// `observation` with its changed regions trimmed to `cap`.
pub fn trim_observation(observation: &Observation, cap: usize) -> (r: Observation)
    ensures
        r.changed_regions@ == trimmed_regions(observation.changed_regions@, cap as nat),
        r.window_id == observation.window_id,
        r.after_action == observation.after_action,
        r.commits == observation.commits,
        r.focus_changed == observation.focus_changed,
        r.title_changed == observation.title_changed,
        r.new_windows@ == observation.new_windows@,
        r.destroyed_windows@ == observation.destroyed_windows@,
        r.popups_appeared@ == observation.popups_appeared@,
        r.popups_disappeared@ == observation.popups_disappeared@,
        r.elapsed_ms == observation.elapsed_ms,
        r.quiet == observation.quiet,
        r.timed_out == observation.timed_out,
        r.last_commit_seq == observation.last_commit_seq,
        r.seq == observation.seq,
{
    Observation {
        window_id: observation.window_id,
        after_action: observation.after_action,
        commits: observation.commits,
        changed_regions: trim_regions(observation.changed_regions.as_slice(), cap),
        focus_changed: observation.focus_changed,
        title_changed: observation.title_changed,
        new_windows: copy_vec(&observation.new_windows),
        destroyed_windows: copy_vec(&observation.destroyed_windows),
        popups_appeared: copy_vec(&observation.popups_appeared),
        popups_disappeared: copy_vec(&observation.popups_disappeared),
        elapsed_ms: observation.elapsed_ms,
        quiet: observation.quiet,
        timed_out: observation.timed_out,
        last_commit_seq: observation.last_commit_seq,
        seq: observation.seq,
    }
}

/// The views of optional string slices.
pub open spec fn opt_slice(o: Option<&str>) -> Option<Seq<char>> {
    match o {
        Some(s) => Some(s@),
        None => None,
    }
}

impl ContextBuilder {
    /// Assemble the bounded context for the next decision: the windows
    /// summarized, active first and capped; the apps capped; the remembered
    /// actions, events and images; the observation's regions trimmed.
    pub fn build(&self, input: ContextInput) -> (c: AgentContext)
        requires
            within_budget(self@),
        ensures
            c.task@ == input.task.goal@,
            c.success_criteria == input.task.success_criteria,
            c.step == input.step,
            c.max_steps == input.max_steps,
            c.runtime is Some <==> input.runtime is Some,
            c.windows@ == context_windows(input.windows@, input.active_window, self@.budget.max_windows as nat),
            c.active_window == input.active_window,
            c.apps@.len() == if input.apps@.len() <= self@.budget.max_apps { input.apps@.len() } else { self@.budget.max_apps as nat },
            forall|k: int| 0 <= k < c.apps@.len() ==> app_summary_of(#[trigger] c.apps@[k], input.apps@[k]),
            c.recent_actions@ == self@.actions,
            c.recent_events@.map_values(|e: EventSummary| summary_view(e)) == self@.events,
            c.observation is Some <==> input.observation is Some,
            c.observation is Some ==> c.observation->0.changed_regions@ == trimmed_regions(
                input.observation->0.changed_regions@,
                self@.budget.max_changed_regions as nat,
            ),
            opt_str_view_ctx(c.accessibility) == opt_slice(input.accessibility),
            opt_str_view_ctx(c.last_error) == opt_slice(input.last_error),
            c.image == self@.current_image,
            c.keyframe == self@.keyframe,
            images_held(self@) <= self@.budget.max_images,
            c.windows@.len() <= self@.budget.max_windows,
            c.apps@.len() <= self@.budget.max_apps,
            c.recent_actions@.len() <= self@.budget.max_actions,
            c.recent_events@.len() <= self@.budget.max_events,
    {
        let windows = build_windows(input.windows, input.active_window, self.budget.max_windows);
        proof {
            lemma_context_windows_sorted(input.windows@, input.active_window, self.budget.max_windows as nat);
        }
        let mut apps: Vec<AppSummary> = Vec::new();
        let mut k: usize = 0;
        while k < input.apps.len() && k < self.budget.max_apps
            invariant
                k <= input.apps.len(),
                k <= self.budget.max_apps,
                apps@.len() == k,
                forall|j: int| 0 <= j < k ==> app_summary_of(#[trigger] apps@[j], input.apps@[j]),
            decreases input.apps.len() - k,
        {
            apps.push(AppSummary::from_app(&input.apps[k]));
            k += 1;
        }
        let mut actions: Vec<ActionRecord> = Vec::new();
        let mut a: usize = 0;
        while a < self.actions.len()
            invariant
                a <= self.actions.len(),
                actions@ == self.actions@.take(a as int),
            decreases self.actions.len() - a,
        {
            actions.push(clone_action(&self.actions[a]));
            assert(self.actions@.take(a + 1) =~= self.actions@.take(a as int).push(self.actions@[a as int]));
            a += 1;
        }
        assert(self.actions@.take(self.actions.len() as int) =~= self.actions@);
        let mut events: Vec<EventSummary> = Vec::new();
        let mut e: usize = 0;
        while e < self.events.len()
            invariant
                e <= self.events.len(),
                events@ == self.events@.take(e as int),
            decreases self.events.len() - e,
        {
            events.push(clone_summary(&self.events[e]));
            assert(self.events@.take(e + 1) =~= self.events@.take(e as int).push(self.events@[e as int]));
            e += 1;
        }
        assert(self.events@.take(self.events.len() as int) =~= self.events@);
        let c = AgentContext {
            task: input.task.goal.clone(),
            success_criteria: crate::source::clone_opt_string(&input.task.success_criteria),
            step: input.step,
            max_steps: input.max_steps,
            runtime: match input.runtime {
                Some(r) => Some(RuntimeSummary::from_runtime(r)),
                None => None,
            },
            windows,
            active_window: input.active_window,
            apps,
            recent_actions: actions,
            recent_events: events,
            observation: match input.observation {
                Some(o) => Some(trim_observation(o, self.budget.max_changed_regions)),
                None => None,
            },
            accessibility: match input.accessibility {
                Some(t) => Some(String::from_str(t)),
                None => None,
            },
            last_error: match input.last_error {
                Some(t) => Some(String::from_str(t)),
                None => None,
            },
            image: clone_opt_image(&self.current_image),
            keyframe: clone_opt_image(&self.keyframe),
        };
        c
    }
}

/// The view of an optional owned string.
pub open spec fn opt_str_view_ctx(o: Option<String>) -> Option<Seq<char>> {
    match o {
        Some(s) => Some(s@),
        None => None,
    }
}

} // verus!
