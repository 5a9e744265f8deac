//! The standby half of a process pair: it keeps the last snapshot that its
//! primary sent and takes over when the primary falls silent.
use vstd::prelude::*;

verus! {

/// How long (ms) a standby waits for a snapshot before it takes over.
pub const GRACE_PERIOD_MS: u64 = 2000;

/// What a standby's loop hands it on each turn.
pub enum StandbyEvent<T> {
    /// A snapshot arrived from the primary.
    Snapshot(T),
    /// The wait for a message ended with none.
    Silence,
}

/// What a standby's loop does next.
#[derive(Debug, Clone, Copy, PartialEq, Eq, Structural)]
pub enum StandbyAction {
    /// Wait for the next message.
    KeepListening,
    /// Spawn a fresh standby, then run as primary from the adopted snapshot.
    TakeOver,
}

/// A standby: the last snapshot received and when (ms) it last heard from the primary.
pub struct Standby<T> {
    pub snapshot: T,
    pub last_heard: u64,
}

/// Time passed from `t` to `now`; zero if `now` is not later.
pub open spec fn since(now: u64, t: u64) -> int {
    if now > t {
        now - t
    } else {
        0
    }
}

/// The standby takes over at `now` when the grace period has passed in silence.
pub open spec fn takes_over_at<T>(s: Standby<T>, now: u64) -> bool {
    since(now, s.last_heard) >= GRACE_PERIOD_MS
}

/// The standby `s` after a snapshot `snapshot` arrived at `now`.
pub open spec fn received<T>(s: Standby<T>, snapshot: T, now: u64) -> Standby<T> {
    Standby { snapshot, last_heard: now }
}

impl<T> Standby<T> {
    /// A standby that starts listening at `now`, with `initial` (the default
    /// snapshot) to adopt if nothing arrives.
    pub fn new(initial: T, now: u64) -> (r: Self)
        ensures
            r.snapshot == initial,
            r.last_heard == now,
    {
        Standby { snapshot: initial, last_heard: now }
    }

    /// Handles one turn of the standby's loop at `now` (ms): a snapshot is
    /// adopted and restarts the grace period; silence past the grace period
    /// means taking over.
    pub fn on_event(&mut self, event: StandbyEvent<T>, now: u64) -> (r: StandbyAction)
        ensures
            match event {
                StandbyEvent::Snapshot(snapshot) => *final(self) == received(*old(self), snapshot, now)
                    && r == StandbyAction::KeepListening,
                StandbyEvent::Silence => *final(self) == *old(self) && (r == StandbyAction::TakeOver
                    <==> takes_over_at(*old(self), now)),
            },
    {
        match event {
            StandbyEvent::Snapshot(snapshot) => {
                self.snapshot = snapshot;
                self.last_heard = now;
                StandbyAction::KeepListening
            },
            StandbyEvent::Silence => {
                if now > self.last_heard && now - self.last_heard >= GRACE_PERIOD_MS {
                    StandbyAction::TakeOver
                } else {
                    StandbyAction::KeepListening
                }
            },
        }
    }

    /// The snapshot to start from when taking over.
    pub fn take_over(self) -> (r: T)
        ensures
            r == self.snapshot,
    {
        self.snapshot
    }
}

/// A standby that received snapshot `snapshot` at `t0` and nothing after
/// keeps listening before `t0 + GRACE_PERIOD_MS`, takes over from then on,
/// and starts from exactly `snapshot`.
pub proof fn lemma_takeover_adopts_last_snapshot<T>(s: Standby<T>, snapshot: T, t0: u64, now: u64)
    requires
        now >= t0,
    ensures
        takes_over_at(received(s, snapshot, t0), now) <==> now - t0 >= GRACE_PERIOD_MS,
        received(s, snapshot, t0).snapshot == snapshot,
{
}

} // verus!
