//! Watching udisks2 signals: any signal from `org.freedesktop.UDisks2`
//! (objects added or removed, properties changed) asks for a drive refresh;
//! a 500 ms quiet window collapses a burst of signals into one refresh.

use vstd::prelude::*;

verus! {

/// Length of the quiet window that ends a burst of signals, in milliseconds.
pub const DEBOUNCE_MS: u64 = 500;

/// Delay before reconnecting after a failure to set up the watch, in seconds.
pub const RETRY_SECS: u64 = 5;

/// Where the watcher stands.
#[derive(Debug, Clone, Copy, PartialEq, Eq, Structural)]
pub enum WatchState {
    /// Waiting, with no time limit, for the next signal.
    Waiting,
    /// A burst is under way: waiting for a quiet window.
    Debouncing,
    /// A refresh request is being delivered.
    Sending,
}

/// What the watcher observed.
#[derive(Debug, Clone, Copy, PartialEq, Eq, Structural)]
pub enum WatchEvent {
    /// A udisks2 signal arrived.
    Signal,
    /// The signal stream ended (the connection dropped).
    StreamEnded,
    /// No signal arrived within the quiet window.
    QuietWindowElapsed,
    /// The refresh request was delivered.
    Sent,
    /// The refresh request could not be delivered.
    SendFailed,
    /// Connecting or subscribing failed.
    ConnectFailed,
}

/// What the caller does next.
#[derive(Debug, Clone, Copy, PartialEq, Eq, Structural)]
pub enum WatchAction {
    /// Wait for the next signal, without a time limit.
    AwaitSignal,
    /// Wait for the next signal for at most `DEBOUNCE_MS`.
    AwaitQuietWindow,
    /// Deliver one `RefreshDisks` request.
    SendRefresh,
    /// Connect and subscribe again, at once.
    Reconnect,
    /// Connect and subscribe again after `RETRY_SECS`.
    RetryLater,
}

/// The watcher's transition: next state and action for an event.
pub open spec fn watch_next(s: WatchState, e: WatchEvent) -> (WatchState, WatchAction) {
    match (s, e) {
        (_, WatchEvent::ConnectFailed) => (WatchState::Waiting, WatchAction::RetryLater),
        (WatchState::Waiting, WatchEvent::Signal) => (
            WatchState::Debouncing,
            WatchAction::AwaitQuietWindow,
        ),
        (WatchState::Waiting, WatchEvent::StreamEnded) => (
            WatchState::Waiting,
            WatchAction::Reconnect,
        ),
        (WatchState::Debouncing, WatchEvent::Signal) => (
            WatchState::Debouncing,
            WatchAction::AwaitQuietWindow,
        ),
        (WatchState::Debouncing, WatchEvent::StreamEnded) => (
            WatchState::Sending,
            WatchAction::SendRefresh,
        ),
        (WatchState::Debouncing, WatchEvent::QuietWindowElapsed) => (
            WatchState::Sending,
            WatchAction::SendRefresh,
        ),
        (WatchState::Sending, WatchEvent::Sent) => (WatchState::Waiting, WatchAction::AwaitSignal),
        (WatchState::Sending, WatchEvent::SendFailed) => (
            WatchState::Waiting,
            WatchAction::Reconnect,
        ),
        (s, _) => (s, match s {
            WatchState::Waiting => WatchAction::AwaitSignal,
            WatchState::Debouncing => WatchAction::AwaitQuietWindow,
            WatchState::Sending => WatchAction::SendRefresh,
        }),
    }
}

/// Decides the watcher's next state and action after an event.
pub fn watch_step(s: WatchState, e: WatchEvent) -> (r: (WatchState, WatchAction))
    ensures
        r == watch_next(s, e),
{
    match (s, e) {
        (_, WatchEvent::ConnectFailed) => (WatchState::Waiting, WatchAction::RetryLater),
        (WatchState::Waiting, WatchEvent::Signal) => (
            WatchState::Debouncing,
            WatchAction::AwaitQuietWindow,
        ),
        (WatchState::Waiting, WatchEvent::StreamEnded) => (
            WatchState::Waiting,
            WatchAction::Reconnect,
        ),
        (WatchState::Debouncing, WatchEvent::Signal) => (
            WatchState::Debouncing,
            WatchAction::AwaitQuietWindow,
        ),
        (WatchState::Debouncing, WatchEvent::StreamEnded) => (
            WatchState::Sending,
            WatchAction::SendRefresh,
        ),
        (WatchState::Debouncing, WatchEvent::QuietWindowElapsed) => (
            WatchState::Sending,
            WatchAction::SendRefresh,
        ),
        (WatchState::Sending, WatchEvent::Sent) => (WatchState::Waiting, WatchAction::AwaitSignal),
        (WatchState::Sending, WatchEvent::SendFailed) => (
            WatchState::Waiting,
            WatchAction::Reconnect,
        ),
        (s, _) => (s, match s {
            WatchState::Waiting => WatchAction::AwaitSignal,
            WatchState::Debouncing => WatchAction::AwaitQuietWindow,
            WatchState::Sending => WatchAction::SendRefresh,
        }),
    }
}

/// The state after a sequence of events.
pub open spec fn watch_state_after(s: WatchState, es: Seq<WatchEvent>) -> WatchState
    decreases es.len(),
{
    if es.len() == 0 {
        s
    } else {
        watch_next(watch_state_after(s, es.drop_last()), es.last()).0
    }
}

/// How many refreshes a sequence of events asks for.
pub open spec fn refreshes(s: WatchState, es: Seq<WatchEvent>) -> nat
    decreases es.len(),
{
    if es.len() == 0 {
        0
    } else {
        refreshes(s, es.drop_last()) + if watch_next(
            watch_state_after(s, es.drop_last()),
            es.last(),
        ).1 == WatchAction::SendRefresh {
            1nat
        } else {
            0nat
        }
    }
}

/// `n` signals in a row.
pub open spec fn burst(n: nat) -> Seq<WatchEvent> {
    Seq::new(n, |i: int| WatchEvent::Signal)
}

proof fn lemma_burst_state(n: nat)
    requires
        n > 0,
    ensures
        watch_state_after(WatchState::Waiting, burst(n)) == WatchState::Debouncing,
        refreshes(WatchState::Waiting, burst(n)) == 0,
    decreases n,
{
    assert(burst(n).last() == WatchEvent::Signal);
    if n > 1 {
        assert(burst(n).drop_last() =~= burst((n - 1) as nat));
        lemma_burst_state((n - 1) as nat);
        assert(watch_next(WatchState::Debouncing, WatchEvent::Signal).1
            == WatchAction::AwaitQuietWindow);
    } else {
        assert(burst(n).drop_last() =~= Seq::<WatchEvent>::empty());
        assert(watch_state_after(WatchState::Waiting, Seq::<WatchEvent>::empty())
            == WatchState::Waiting);
        assert(refreshes(WatchState::Waiting, Seq::<WatchEvent>::empty()) == 0);
        assert(watch_next(WatchState::Waiting, WatchEvent::Signal).1
            == WatchAction::AwaitQuietWindow);
    }
}

/// A burst of signals followed by a quiet window asks for exactly one refresh.
pub proof fn lemma_burst_refreshes_once(n: nat)
    requires
        n > 0,
    ensures
        refreshes(WatchState::Waiting, burst(n).push(WatchEvent::QuietWindowElapsed)) == 1,
        watch_state_after(WatchState::Waiting, burst(n).push(WatchEvent::QuietWindowElapsed))
            == WatchState::Sending,
{
    lemma_burst_state(n);
    assert(burst(n).push(WatchEvent::QuietWindowElapsed).drop_last() =~= burst(n));
}

/// Running two sequences of events one after the other: the state after both,
/// and the refreshes of both.
proof fn lemma_events_concat(s: WatchState, a: Seq<WatchEvent>, b: Seq<WatchEvent>)
    ensures
        watch_state_after(s, a + b) == watch_state_after(watch_state_after(s, a), b),
        refreshes(s, a + b) == refreshes(s, a) + refreshes(watch_state_after(s, a), b),
    decreases b.len(),
{
    if b.len() == 0 {
        assert(a + b =~= a);
    } else {
        assert((a + b).drop_last() =~= a + b.drop_last());
        assert((a + b).last() == b.last());
        lemma_events_concat(s, a, b.drop_last());
    }
}

/// One cycle of the watcher: a burst of `n` signals, the quiet window, and the
/// delivery of the refresh request.
pub open spec fn burst_cycle(n: nat) -> Seq<WatchEvent> {
    burst(n).push(WatchEvent::QuietWindowElapsed).push(WatchEvent::Sent)
}

/// Bursts of the given sizes, each followed by its quiet window and delivery.
pub open spec fn bursts(ns: Seq<nat>) -> Seq<WatchEvent>
    decreases ns.len(),
{
    if ns.len() == 0 {
        seq![]
    } else {
        bursts(ns.drop_last()) + burst_cycle(ns.last())
    }
}

/// Any number of bursts, each ended by a quiet window, asks for exactly one
/// refresh per burst, and the watcher is back to waiting after each delivery.
pub proof fn lemma_each_burst_refreshes_once(ns: Seq<nat>)
    requires
        forall|i: int| 0 <= i < ns.len() ==> #[trigger] ns[i] > 0,
    ensures
        refreshes(WatchState::Waiting, bursts(ns)) == ns.len(),
        watch_state_after(WatchState::Waiting, bursts(ns)) == WatchState::Waiting,
    decreases ns.len(),
{
    if ns.len() > 0 {
        let rest = ns.drop_last();
        assert forall|i: int| 0 <= i < rest.len() implies #[trigger] rest[i] > 0 by {
            assert(rest[i] == ns[i]);
        }
        lemma_each_burst_refreshes_once(rest);
        let n = ns.last();
        assert(n > 0);
        lemma_burst_refreshes_once(n);
        let once = burst(n).push(WatchEvent::QuietWindowElapsed);
        assert(burst_cycle(n).drop_last() =~= once);
        assert(burst_cycle(n).last() == WatchEvent::Sent);
        assert(watch_next(WatchState::Sending, WatchEvent::Sent).1 == WatchAction::AwaitSignal);
        lemma_events_concat(WatchState::Waiting, bursts(rest), burst_cycle(n));
    } else {
        assert(bursts(ns) =~= Seq::<WatchEvent>::empty());
    }
}

/// From waiting, events without any signal never ask for a refresh, and the
/// watcher stays waiting.
pub proof fn lemma_no_refresh_without_any_signal(es: Seq<WatchEvent>)
    requires
        forall|i: int| 0 <= i < es.len() ==> #[trigger] es[i] != WatchEvent::Signal,
    ensures
        refreshes(WatchState::Waiting, es) == 0,
        watch_state_after(WatchState::Waiting, es) == WatchState::Waiting,
    decreases es.len(),
{
    if es.len() > 0 {
        let rest = es.drop_last();
        assert forall|i: int| 0 <= i < rest.len() implies #[trigger] rest[i]
            != WatchEvent::Signal by {
            assert(rest[i] == es[i]);
        }
        lemma_no_refresh_without_any_signal(rest);
        assert(es.last() == es[es.len() - 1]);
    }
}

/// The events that can answer an action: a signal or the end of the stream
/// while waiting for signals, those or the end of the quiet window while
/// debouncing, the delivery outcome while sending, and while (re)connecting a
/// connection failure or, once connected, what can answer waiting.
pub open spec fn answers(a: WatchAction, e: WatchEvent) -> bool {
    match a {
        WatchAction::AwaitSignal => e is Signal || e is StreamEnded,
        WatchAction::AwaitQuietWindow => e is Signal || e is StreamEnded || e is QuietWindowElapsed,
        WatchAction::SendRefresh => e is Sent || e is SendFailed,
        WatchAction::Reconnect => e is Signal || e is StreamEnded || e is ConnectFailed,
        WatchAction::RetryLater => e is Signal || e is StreamEnded || e is ConnectFailed,
    }
}

/// The watcher's state and last action after a sequence of events, from the
/// start (waiting, about to connect).
pub open spec fn watch_run(es: Seq<WatchEvent>) -> (WatchState, WatchAction)
    decreases es.len(),
{
    if es.len() == 0 {
        (WatchState::Waiting, WatchAction::Reconnect)
    } else {
        watch_next(watch_run(es.drop_last()).0, es.last())
    }
}

/// Every event answers the action before it.
pub open spec fn well_formed(es: Seq<WatchEvent>) -> bool
    decreases es.len(),
{
    es.len() == 0 || (well_formed(es.drop_last()) && answers(watch_run(es.drop_last()).1, es.last()))
}

/// The event at `i` ends a burst: it is the end of the quiet window or of the
/// stream, right after a signal.
pub open spec fn ends_burst(es: Seq<WatchEvent>, i: int) -> bool {
    &&& 0 < i < es.len()
    &&& (es[i] is QuietWindowElapsed || es[i] is StreamEnded)
    &&& es[i - 1] is Signal
}

/// The state and last action agree, and the state is debouncing exactly after a signal.
spec fn run_consistent(es: Seq<WatchEvent>) -> bool {
    let (st, a) = watch_run(es);
    &&& (st is Waiting <==> (a is AwaitSignal || a is Reconnect || a is RetryLater))
    &&& (st is Debouncing <==> a is AwaitQuietWindow)
    &&& (st is Sending <==> a is SendRefresh)
    &&& (st is Debouncing <==> (es.len() > 0 && es.last() is Signal))
}

proof fn lemma_run_consistent(es: Seq<WatchEvent>)
    requires
        well_formed(es),
    ensures
        run_consistent(es),
        es.len() > 0 ==> (watch_run(es).1 is SendRefresh <==> ends_burst(es, es.len() - 1)),
    decreases es.len(),
{
    if es.len() > 0 {
        let p = es.drop_last();
        lemma_run_consistent(p);
        if p.len() > 0 {
            assert(es[es.len() - 2] == p.last());
        }
        assert(es[es.len() - 1] == es.last());
    }
}

/// Well-formed sequences are closed under taking prefixes.
proof fn lemma_well_formed_prefix(es: Seq<WatchEvent>, k: int)
    requires
        well_formed(es),
        0 <= k <= es.len(),
    ensures
        well_formed(es.take(k)),
    decreases es.len(),
{
    if k < es.len() {
        assert(es.drop_last().take(k) =~= es.take(k));
        lemma_well_formed_prefix(es.drop_last(), k);
    } else {
        assert(es.take(k) =~= es);
    }
}

/// For any sequence of events in which each event answers the action before
/// it, the watcher asks for a refresh exactly at the events that end a burst:
/// each maximal run of signals followed by the end of the quiet window (or of
/// the stream) gives exactly one refresh request, and no other event gives one.
pub proof fn lemma_refresh_exactly_at_burst_end(es: Seq<WatchEvent>)
    requires
        well_formed(es),
    ensures
        forall|k: int|
            1 <= k <= es.len() ==> ((#[trigger] watch_run(es.take(k))).1 is SendRefresh
                <==> ends_burst(es, k - 1)),
{
    assert forall|k: int| 1 <= k <= es.len() implies ((#[trigger] watch_run(es.take(k))).1
        is SendRefresh <==> ends_burst(es, k - 1)) by {
        lemma_well_formed_prefix(es, k);
        lemma_run_consistent(es.take(k));
        let t = es.take(k);
        assert(t[k - 1] == es[k - 1]);
        if k >= 2 {
            assert(t[k - 2] == es[k - 2]);
        }
    }
}

} // verus!
