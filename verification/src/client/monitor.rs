//! The decisions of the background event monitors: when to wait before
//! reconnecting, what to hand to the consumer, and when to stop. The caller
//! does the connecting, reading, sending and sleeping, and reports each
//! outcome here.

use vstd::prelude::*;

use crate::client::error::ClientError;
use crate::client::events::{reads_as, wire_readable, ClientEvent};
use crate::client::types::ClientConfig;
use crate::client::wire::{backoff_after, next_backoff};
use crate::ipc::json::JsonValue;

verus! {

/// Reconnect pacing of a monitor: the delay before the next attempt, the
/// delay it starts from after each successful subscribe, and its ceiling.
/// `resync` says whether the consumer is told of each (re)connect.
pub struct MonitorState {
    pub backoff_ms: u64,
    pub initial_ms: u64,
    pub max_ms: u64,
    pub resync: bool,
}

/// What happened since the last step.
pub enum MonitorEvent {
    /// Connecting to the daemon failed.
    ConnectFailed,
    /// Connected, but the subscribe request failed.
    SubscribeFailed,
    /// Connected and subscribed.
    Subscribed,
    /// A line was read and parsed as JSON.
    Line(JsonValue),
    /// A line was read that is not JSON.
    Unreadable,
    /// The connection dropped.
    Disconnected,
    /// The consumer is gone: handing it something failed.
    ReceiverGone,
}

/// What the caller does next.
pub enum MonitorAction {
    /// Wait this long, then connect again.
    Sleep { ms: u64 },
    /// Hand this event to the consumer, then read on.
    Deliver(ClientEvent),
    /// Read the next line.
    Listen,
    /// End the monitor.
    Stop,
}

/// The pacing after `ev`.
pub open spec fn monitor_next(st: MonitorState, ev: MonitorEvent) -> MonitorState {
    match ev {
        MonitorEvent::ConnectFailed | MonitorEvent::SubscribeFailed | MonitorEvent::Disconnected => MonitorState {
            backoff_ms: backoff_after(st.backoff_ms, st.max_ms) as u64,
            ..st
        },
        MonitorEvent::Subscribed => MonitorState { backoff_ms: st.initial_ms, ..st },
        _ => st,
    }
}

/// The pacing after `k` failed attempts in a row.
pub open spec fn after_failures(st: MonitorState, k: nat) -> MonitorState
    decreases k,
{
    if k == 0 {
        st
    } else {
        monitor_next(after_failures(st, (k - 1) as nat), MonitorEvent::ConnectFailed)
    }
}

/// `d` doubled `k` times.
pub open spec fn doubled(d: int, k: nat) -> int
    decreases k,
{
    if k == 0 {
        d
    } else {
        2 * doubled(d, (k - 1) as nat)
    }
}

impl MonitorState {
    /// Pacing for a fresh monitor: it starts at the initial delay.
    pub fn new(config: &ClientConfig, resync: bool) -> (st: Self)
        ensures
            st.backoff_ms == config.retry_initial_ms,
            st.initial_ms == config.retry_initial_ms,
            st.max_ms == config.retry_max_ms,
            st.resync == resync,
    {
        MonitorState {
            backoff_ms: config.retry_initial_ms,
            initial_ms: config.retry_initial_ms,
            max_ms: config.retry_max_ms,
            resync,
        }
    }
}

/// One decision of a monitor. A failed attempt or a dropped connection
/// waits the current delay and doubles it up to the ceiling; a successful
/// subscribe resets the delay and, for a resyncing monitor, tells the
/// consumer to refetch; a readable event line is handed on, anything else
/// is passed over; the monitor stops only when its consumer is gone.
pub fn monitor_step(st: &mut MonitorState, ev: MonitorEvent) -> (a: MonitorAction)
    ensures
        *final(st) == monitor_next(*old(st), ev),
        (ev is ConnectFailed || ev is SubscribeFailed || ev is Disconnected) ==> a == (MonitorAction::Sleep {
            ms: old(st).backoff_ms,
        }),
        ev is Subscribed ==> if old(st).resync {
            a == MonitorAction::Deliver(ClientEvent::Resync)
        } else {
            a is Listen
        },
        ev matches MonitorEvent::Line(v) ==> if wire_readable(v) {
            a matches MonitorAction::Deliver(e) && reads_as(v, e)
        } else {
            a is Listen
        },
        ev is Unreadable ==> a is Listen,
        a is Stop <==> ev is ReceiverGone,
{
    match ev {
        MonitorEvent::ConnectFailed | MonitorEvent::SubscribeFailed | MonitorEvent::Disconnected => {
            let wait = st.backoff_ms;
            st.backoff_ms = next_backoff(st.backoff_ms, st.max_ms);
            MonitorAction::Sleep { ms: wait }
        },
        MonitorEvent::Subscribed => {
            st.backoff_ms = st.initial_ms;
            if st.resync {
                MonitorAction::Deliver(ClientEvent::Resync)
            } else {
                MonitorAction::Listen
            }
        },
        MonitorEvent::Line(v) => match ClientEvent::from_wire(&v) {
            Some(e) => MonitorAction::Deliver(e),
            None => MonitorAction::Listen,
        },
        MonitorEvent::Unreadable => MonitorAction::Listen,
        MonitorEvent::ReceiverGone => MonitorAction::Stop,
    }
}

/// The delay never leaves the range from the initial delay to the ceiling,
/// whatever happens, once it starts there.
pub proof fn law_backoff_in_range(st: MonitorState, ev: MonitorEvent)
    requires
        st.initial_ms <= st.backoff_ms <= st.max_ms,
    ensures
        ({
            let n = monitor_next(st, ev);
            &&& n.initial_ms == st.initial_ms && n.max_ms == st.max_ms && n.resync == st.resync
            &&& n.initial_ms <= n.backoff_ms <= n.max_ms
        }),
{
}

/// After `k` failed attempts in a row the delay is the starting delay
/// doubled `k` times, capped at the ceiling (250 ms, 500 ms, … 8 s, 8 s).
pub proof fn law_backoff_doubles_to_ceiling(st: MonitorState, k: nat)
    requires
        st.backoff_ms <= st.max_ms,
    ensures
        after_failures(st, k).backoff_ms == if doubled(st.backoff_ms as int, k) <= st.max_ms {
            doubled(st.backoff_ms as int, k)
        } else {
            st.max_ms as int
        },
        after_failures(st, k).max_ms == st.max_ms,
    decreases k,
{
    if k > 0 {
        law_backoff_doubles_to_ceiling(st, (k - 1) as nat);
        lemma_doubled_grows(st.backoff_ms as int, (k - 1) as nat);
    }
}

proof fn lemma_doubled_grows(d: int, k: nat)
    requires
        d >= 0,
    ensures
        doubled(d, k) >= d,
        doubled(d, k) >= 0,
    decreases k,
{
    if k > 0 {
        lemma_doubled_grows(d, (k - 1) as nat);
    }
}

/// A request is retried once, on a fresh connection, exactly when it failed
/// at the connection level.
pub fn retries_after(e: &ClientError) -> (r: bool)
    ensures
        r <==> (*e is Io || *e is Disconnected),
{
    match e {
        ClientError::Io(_) => true,
        ClientError::Disconnected => true,
        _ => false,
    }
}

} // verus!
