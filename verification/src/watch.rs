//! Idle/watch mode: the agent stays idle, is woken by events, handles its
//! standing job, and returns to idle. The first wait starts from the
//! configured filter point; every resolved wait advances it to the runtime's
//! watermark at resolution, so an event published between two waits is
//! neither replayed nor dropped.

use vstd::prelude::*;

use crate::requests::WaitForEventsRequest;
use crate::runtime::EventKind;

verus! {

/// Idle/watch tuning knobs; `None` on a budget means unbounded.
#[derive(Debug, Clone)]
pub struct WatchConfig {
    /// Event kinds that count as a wakeup; `None` wakes on every kind.
    pub wake_kinds: Option<Vec<EventKind>>,
    /// Bound on a single idle wait, in milliseconds.
    pub wait_timeout_ms: u64,
    /// Most events a single wait answers with.
    pub max_events: u32,
    /// Stop after handling this many wakeups.
    pub max_wakeups: Option<u32>,
    /// Stop after this many consecutive idle waits.
    pub max_idle_waits: Option<u32>,
    /// Filter point for the first idle wait.
    pub since_seq: Option<u64>,
}

impl Default for WatchConfig {
    fn default() -> (c: WatchConfig)
        ensures
            c.wake_kinds matches Some(k) && k@ == seq![EventKind::Notification, EventKind::NotificationAction],
            c.wait_timeout_ms == 30_000,
            c.max_events == 32,
            c.max_wakeups is None,
            c.max_idle_waits is None,
            c.since_seq is None,
    {
        let mut kinds: Vec<EventKind> = Vec::new();
        kinds.push(EventKind::Notification);
        kinds.push(EventKind::NotificationAction);
        WatchConfig {
            wake_kinds: Some(kinds),
            wait_timeout_ms: 30_000,
            max_events: 32,
            max_wakeups: None,
            max_idle_waits: None,
            since_seq: None,
        }
    }
}

/// Why the watch loop stopped.
#[derive(Debug, Clone, Copy, PartialEq, Eq, Structural)]
pub enum WatchStopReason {
    /// `max_wakeups` wakeups were handled.
    WakeupBudget,
    /// `max_idle_waits` consecutive idle waits elapsed with no events.
    IdleBudget,
    /// A fatal error ended the watch.
    Fatal,
}

/// What the watch does after a wait resolved.
#[derive(Debug, Clone, Copy, PartialEq, Eq, Structural)]
pub enum WaitVerdict {
    /// Nothing arrived: wait again.
    StayIdle,
    /// Nothing arrived and the idle budget is spent: stop.
    IdleBudgetSpent,
    /// Events arrived: record them and run the standing job.
    Wake,
}

/// The watch loop's counters and its threaded filter point.
#[derive(Debug, Clone, Copy, PartialEq, Eq, Structural)]
pub struct WatchState {
    /// Consecutive idle waits (what the idle budget counts).
    pub idle_waits: u32,
    /// Idle (timed-out) waits observed in the whole watch.
    pub total_idle_waits: u32,
    /// Handled wakeups.
    pub wakeups: u32,
    /// The filter point of the next wait.
    pub filter_seq: Option<u64>,
}

/// `n + 1`, saturated at `u32::MAX`.
pub open spec fn inc_sat(n: u32) -> u32 {
    if n < u32::MAX { (n + 1) as u32 } else { n }
}

/// The state and verdict after a wait resolved with the runtime's watermark
/// `seq`: the filter point becomes `seq` either way; a timed-out wait counts
/// against the idle budget and in the total, a wake resets the budget's count
/// (not the total).
pub open spec fn on_wait_spec(s: WatchState, timed_out: bool, seq: u64, max_idle_waits: Option<u32>) -> (
    WatchState,
    WaitVerdict,
) {
    if timed_out {
        let idle = inc_sat(s.idle_waits);
        let next = WatchState {
            idle_waits: idle,
            total_idle_waits: inc_sat(s.total_idle_waits),
            filter_seq: Some(seq),
            ..s
        };
        match max_idle_waits {
            Some(max) => if idle >= max {
                (next, WaitVerdict::IdleBudgetSpent)
            } else {
                (next, WaitVerdict::StayIdle)
            },
            None => (next, WaitVerdict::StayIdle),
        }
    } else {
        (WatchState { idle_waits: 0, filter_seq: Some(seq), ..s }, WaitVerdict::Wake)
    }
}

impl WatchState {
    /// The state before the first wait.
    pub fn new(watch: &WatchConfig) -> (s: WatchState)
        ensures
            s == (WatchState { idle_waits: 0, total_idle_waits: 0, wakeups: 0, filter_seq: watch.since_seq }),
    {
        WatchState { idle_waits: 0, total_idle_waits: 0, wakeups: 0, filter_seq: watch.since_seq }
    }

    /// The next wait's request: the configured kinds and bounds, from the
    /// threaded filter point.
    pub fn request(&self, watch: &WatchConfig) -> (r: WaitForEventsRequest)
        ensures
            r.window_id is None,
            r.timeout_ms == watch.wait_timeout_ms,
            r.max_events == watch.max_events,
            r.since_seq == self.filter_seq,
            r.kinds is Some <==> watch.wake_kinds is Some,
            r.kinds is Some ==> r.kinds->0@ == watch.wake_kinds->0@,
    {
        let kinds = match &watch.wake_kinds {
            Some(k) => Some(crate::context::copy_vec(k)),
            None => None,
        };
        WaitForEventsRequest {
            kinds,
            window_id: None,
            timeout_ms: watch.wait_timeout_ms,
            max_events: watch.max_events,
            since_seq: self.filter_seq,
        }
    }

    /// Account for a resolved wait.
    pub fn on_wait(&mut self, timed_out: bool, seq: u64, watch: &WatchConfig) -> (v: WaitVerdict)
        ensures
            (*final(self), v) == on_wait_spec(*old(self), timed_out, seq, watch.max_idle_waits),
    {
        self.filter_seq = Some(seq);
        if timed_out {
            if self.idle_waits < u32::MAX {
                self.idle_waits = self.idle_waits + 1;
            }
            if self.total_idle_waits < u32::MAX {
                self.total_idle_waits = self.total_idle_waits + 1;
            }
            match watch.max_idle_waits {
                Some(max) => if self.idle_waits >= max {
                    WaitVerdict::IdleBudgetSpent
                } else {
                    WaitVerdict::StayIdle
                },
                None => WaitVerdict::StayIdle,
            }
        } else {
            self.idle_waits = 0;
            WaitVerdict::Wake
        }
    }

    /// Account for a handled wakeup; `Some` when the wakeup budget is spent.
    pub fn after_wakeup(&mut self, watch: &WatchConfig) -> (r: Option<WatchStopReason>)
        ensures
            final(self).wakeups == inc_sat(old(self).wakeups),
            final(self).idle_waits == old(self).idle_waits,
            final(self).total_idle_waits == old(self).total_idle_waits,
            final(self).filter_seq == old(self).filter_seq,
            r == (match watch.max_wakeups {
                Some(max) => if inc_sat(old(self).wakeups) >= max {
                    Some(WatchStopReason::WakeupBudget)
                } else {
                    None
                },
                None => None,
            }),
    {
        if self.wakeups < u32::MAX {
            self.wakeups = self.wakeups + 1;
        }
        match watch.max_wakeups {
            Some(max) => if self.wakeups >= max {
                Some(WatchStopReason::WakeupBudget)
            } else {
                None
            },
            None => None,
        }
    }
}

/// The filter point is threaded: after any resolved wait the next wait starts
/// from that wait's watermark, and a wake always clears the idle count; the
/// total of idle waits grows by one with every timed-out wait and only then.
pub proof fn lemma_filter_point_threaded(s: WatchState, timed_out: bool, seq: u64, max: Option<u32>)
    ensures
        on_wait_spec(s, timed_out, seq, max).0.filter_seq == Some(seq),
        !timed_out ==> on_wait_spec(s, timed_out, seq, max).0.idle_waits == 0
            && on_wait_spec(s, timed_out, seq, max).1 == WaitVerdict::Wake,
        timed_out ==> on_wait_spec(s, timed_out, seq, max).1 != WaitVerdict::Wake,
        timed_out ==> on_wait_spec(s, timed_out, seq, max).0.total_idle_waits == inc_sat(s.total_idle_waits),
        !timed_out ==> on_wait_spec(s, timed_out, seq, max).0.total_idle_waits == s.total_idle_waits,
{
}

} // verus!
