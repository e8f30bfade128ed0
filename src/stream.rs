use vstd::prelude::*;

verus! {

/// Delay before the first reconnection attempt.
pub const BASE_BACKOFF_MS: u64 = 500;

/// Longest delay between reconnection attempts.
pub const MAX_BACKOFF_MS: u64 = 30_000;

/// Connection phase of a subscription. There is no terminal phase: a
/// subscription that drops is reconnected.
#[derive(Clone, Copy, Debug, PartialEq, Eq, Structural)]
pub enum Phase {
    Idle,
    Polling,
    /// Waiting to reconnect after this many failed attempts.
    Reconnecting(u32),
}

/// What happened to a subscription's connection.
#[derive(Clone, Copy, Debug, PartialEq, Eq, Structural)]
pub enum LinkEvent {
    Start,
    /// The stream ended or its connection dropped.
    Disconnected,
    /// A reconnection attempt succeeded.
    Connected,
    /// A reconnection attempt failed.
    ConnectFailed,
}

/// What the task running a subscription must do next.
#[derive(Clone, Copy, Debug, PartialEq, Eq, Structural)]
pub enum LinkAction {
    Subscribe,
    /// Sleep this many milliseconds, then try to subscribe again.
    Sleep(u64),
    Nothing,
}

/// The delay before reconnection attempt `attempt`: doubling from the base,
/// capped.
pub open spec fn backoff(attempt: nat) -> nat
    decreases attempt,
{
    if attempt == 0 {
        BASE_BACKOFF_MS as nat
    } else {
        let d = 2 * backoff((attempt - 1) as nat);
        if d < MAX_BACKOFF_MS {
            d
        } else {
            MAX_BACKOFF_MS as nat
        }
    }
}

proof fn lemma_backoff_bounds(a: nat)
    ensures
        BASE_BACKOFF_MS <= backoff(a) <= MAX_BACKOFF_MS,
    decreases a,
{
    if a > 0 {
        lemma_backoff_bounds((a - 1) as nat);
    }
}

proof fn lemma_backoff_saturates(i: nat, a: nat)
    requires
        i <= a,
        backoff(i) == MAX_BACKOFF_MS,
    ensures
        backoff(a) == MAX_BACKOFF_MS,
    decreases a - i,
{
    if i < a {
        lemma_backoff_saturates(i, (a - 1) as nat);
    }
}

/// The delay before reconnection attempt `attempt`, in milliseconds.
pub fn backoff_ms(attempt: u32) -> (r: u64)
    ensures
        r == backoff(attempt as nat),
        BASE_BACKOFF_MS <= r <= MAX_BACKOFF_MS,
{
    let mut d: u64 = BASE_BACKOFF_MS;
    let mut i: u32 = 0;
    while i < attempt && d < MAX_BACKOFF_MS
        invariant
            i <= attempt,
            d == backoff(i as nat),
            BASE_BACKOFF_MS <= d <= MAX_BACKOFF_MS,
        decreases attempt - i,
    {
        d = if 2 * d < MAX_BACKOFF_MS {
            2 * d
        } else {
            MAX_BACKOFF_MS
        };
        i = i + 1;
    }
    proof {
        if i < attempt {
            lemma_backoff_saturates(i as nat, attempt as nat);
        }
        lemma_backoff_bounds(attempt as nat);
    }
    d
}

/// The next phase of a subscription and what its task must do.
pub open spec fn link_next(p: Phase, e: LinkEvent) -> (Phase, LinkAction) {
    match (p, e) {
        (Phase::Idle, LinkEvent::Start) => (Phase::Polling, LinkAction::Subscribe),
        (Phase::Polling, LinkEvent::Disconnected) => (
            Phase::Reconnecting(0),
            LinkAction::Sleep(backoff(0) as u64),
        ),
        (Phase::Reconnecting(_), LinkEvent::Connected) => (Phase::Polling, LinkAction::Nothing),
        (Phase::Reconnecting(a), LinkEvent::ConnectFailed) | (
            Phase::Reconnecting(a),
            LinkEvent::Disconnected,
        ) => {
            let n: u32 = if a < u32::MAX {
                (a + 1) as u32
            } else {
                a
            };
            (Phase::Reconnecting(n), LinkAction::Sleep(backoff(n as nat) as u64))
        },
        _ => (p, LinkAction::Nothing),
    }
}

/// One step of a subscription's connection state machine.
pub fn link_step(p: Phase, e: LinkEvent) -> (r: (Phase, LinkAction))
    ensures
        r == link_next(p, e),
{
    match (p, e) {
        (Phase::Idle, LinkEvent::Start) => (Phase::Polling, LinkAction::Subscribe),
        (Phase::Polling, LinkEvent::Disconnected) => (
            Phase::Reconnecting(0),
            LinkAction::Sleep(backoff_ms(0)),
        ),
        (Phase::Reconnecting(_), LinkEvent::Connected) => (Phase::Polling, LinkAction::Nothing),
        (Phase::Reconnecting(a), LinkEvent::ConnectFailed) | (
            Phase::Reconnecting(a),
            LinkEvent::Disconnected,
        ) => {
            let n: u32 = if a < u32::MAX {
                a + 1
            } else {
                a
            };
            (Phase::Reconnecting(n), LinkAction::Sleep(backoff_ms(n)))
        },
        _ => (p, LinkAction::Nothing),
    }
}

/// A dropped subscription is reconnected: a live one that disconnects
/// waits out a bounded delay and then subscribes again, and no sequence of
/// connection events ends a subscription's task.
pub proof fn lemma_disconnect_reconnects(p: Phase, e: LinkEvent)
    ensures
        p == Phase::Polling && e == LinkEvent::Disconnected ==> link_next(p, e) == (
            Phase::Reconnecting(0),
            LinkAction::Sleep(BASE_BACKOFF_MS),
        ),
        p is Reconnecting && e == LinkEvent::Connected ==> link_next(p, e).0 == Phase::Polling,
        link_next(p, e).1 matches LinkAction::Sleep(ms) ==> BASE_BACKOFF_MS <= ms <= MAX_BACKOFF_MS,
{
    match link_next(p, e).0 {
        Phase::Reconnecting(n) => lemma_backoff_bounds(n as nat),
        _ => {},
    }
}

} // verus!
