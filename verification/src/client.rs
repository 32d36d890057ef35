//! The local reconnect loop: per organization, wait for an authenticated
//! session, catch up from the persisted cursor, open the streaming
//! connection at the refreshed cursor, and on close or error retry after an
//! exponential backoff.  A shutdown signal is observable at every wait
//! point; backoff resets only after a fully successful connect.

use vstd::prelude::*;

verus! {

/// First delay of the reconnect backoff, in milliseconds.
pub const WS_BACKOFF_BASE_DELAY_MS: u64 = 1000;

/// Longest delay of the reconnect backoff, in milliseconds.
pub const WS_BACKOFF_MAX_DELAY_MS: u64 = 30000;

/// Longest time the streaming connection may take to open after catch-up
/// finished, in milliseconds; past it the cursor may already be stale and
/// the cycle restarts from catch-up.
pub const MAX_DELAY_BETWEEN_CATCHUP_AND_WS_MS: u64 = 120000;

/// Doubles a delay, capping it at the given bound.
fn double_capped(current_ms: u64, cap_ms: u64) -> (r: u64)
    requires
        current_ms <= cap_ms,
        cap_ms <= 0x7fff_ffff_ffff_ffff,
    ensures
        r == if 2 * current_ms <= cap_ms {
            2 * current_ms
        } else {
            cap_ms as int
        },
        r <= cap_ms,
{
    if current_ms <= cap_ms / 2 && 2 * current_ms <= cap_ms {
        2 * current_ms
    } else {
        cap_ms
    }
}

/// Exponential backoff between reconnect attempts: doubling from the base
/// delay, capped.
#[derive(Clone, Copy, PartialEq, Eq, Structural, Debug)]
pub struct Backoff {
    pub current_ms: u64,
}

impl Backoff {
    /// Whether the delay is within the policy's range.
    pub open spec fn wf(&self) -> bool {
        WS_BACKOFF_BASE_DELAY_MS <= self.current_ms <= WS_BACKOFF_MAX_DELAY_MS
    }

    /// Backoff at the base delay.
    pub fn new() -> (r: Backoff)
        ensures
            r.wf(),
            r.current_ms == WS_BACKOFF_BASE_DELAY_MS,
    {
        Backoff { current_ms: WS_BACKOFF_BASE_DELAY_MS }
    }

    /// Back to the base delay, after a fully successful connect cycle.
    pub fn reset(&mut self)
        ensures
            final(self).wf(),
            final(self).current_ms == WS_BACKOFF_BASE_DELAY_MS,
    {
        self.current_ms = WS_BACKOFF_BASE_DELAY_MS;
    }

    /// The delay to sleep now; the next one doubles, up to the cap.
    pub fn next_wait(&mut self) -> (delay: u64)
        requires
            old(self).wf(),
        ensures
            final(self).wf(),
            delay == old(self).current_ms,
            final(self).current_ms == (if 2 * old(self).current_ms <= WS_BACKOFF_MAX_DELAY_MS {
                2 * old(self).current_ms
            } else {
                WS_BACKOFF_MAX_DELAY_MS as int
            }),
    {
        let delay = self.current_ms;
        self.current_ms = double_capped(self.current_ms, WS_BACKOFF_MAX_DELAY_MS);
        delay
    }
}

/// Where the reconnect loop stands.
#[derive(Clone, Copy, PartialEq, Eq, Structural, Debug)]
pub enum SyncPhase {
    WaitingForSession,
    CatchingUp,
    OpeningStream,
    Streaming,
    BackingOff,
    Stopped,
}

/// What the loop observes at its suspension points.
#[derive(Clone, Copy, PartialEq, Eq, Structural, Debug)]
pub enum SyncEvent {
    SessionActive,
    CaughtUp { cursor: Option<i64> },
    CatchUpFailed,
    StreamOpened,
    StreamOpenFailed,
    StreamOpenTimedOut,
    StreamClosed,
    ShutdownRequested,
}

/// What the surrounding runtime must do next.
#[derive(Clone, Copy, PartialEq, Eq, Structural, Debug)]
pub enum SyncAction {
    AwaitSession,
    RunCatchUp { cursor: Option<i64> },
    OpenStream { cursor: Option<i64> },
    AwaitStream,
    Sleep { delay_ms: u64 },
    Exit,
}

/// Cross-iteration state of the reconnect loop, threaded explicitly:
/// the phase, the cursor to resume from, and the backoff.
#[derive(Clone, Copy, PartialEq, Eq, Structural, Debug)]
pub struct SyncLoopState {
    pub phase: SyncPhase,
    pub cursor: Option<i64>,
    pub backoff: Backoff,
}

impl SyncLoopState {
    /// Whether the loop state is within the policy's range.
    pub open spec fn wf(&self) -> bool {
        self.backoff.wf()
    }

    /// The loop's starting state: waiting for an authenticated session,
    /// resuming from the persisted cursor.
    pub fn start(persisted_cursor: Option<i64>) -> (r: SyncLoopState)
        ensures
            r.wf(),
            r.phase == SyncPhase::WaitingForSession,
            r.cursor == persisted_cursor,
            r.backoff.current_ms == WS_BACKOFF_BASE_DELAY_MS,
    {
        SyncLoopState { phase: SyncPhase::WaitingForSession, cursor: persisted_cursor, backoff: Backoff::new() }
    }

    /// The next state and action of the reconnect loop.  A shutdown request
    /// exits promptly from every wait point; the stream is opened at the
    /// cursor catch-up refreshed; a stream that takes too long to open is a
    /// failed attempt that restarts from catch-up; backoff resets only once
    /// the stream actually opened.
    pub fn step(&mut self, event: SyncEvent) -> (action: SyncAction)
        requires
            old(self).wf(),
        ensures
            final(self).wf(),
            event == SyncEvent::ShutdownRequested ==> action == SyncAction::Exit
                && final(self).phase == SyncPhase::Stopped && final(self).cursor == old(self).cursor
                && final(self).backoff == old(self).backoff,
            match (old(self).phase, event) {
                (_, SyncEvent::ShutdownRequested) => true,
                (SyncPhase::WaitingForSession, SyncEvent::SessionActive) => {
                    &&& final(self).phase == SyncPhase::CatchingUp
                    &&& final(self).cursor == old(self).cursor
                    &&& final(self).backoff == old(self).backoff
                    &&& action == (SyncAction::RunCatchUp { cursor: old(self).cursor })
                },
                (SyncPhase::CatchingUp, SyncEvent::CaughtUp { cursor }) => {
                    &&& final(self).phase == SyncPhase::OpeningStream
                    &&& final(self).cursor == cursor
                    &&& final(self).backoff == old(self).backoff
                    &&& action == (SyncAction::OpenStream { cursor })
                },
                (SyncPhase::CatchingUp, SyncEvent::CatchUpFailed) => {
                    // catch-up errors degrade to opening the stream at the
                    // old cursor, as at startup
                    &&& final(self).phase == SyncPhase::OpeningStream
                    &&& final(self).cursor == old(self).cursor
                    &&& final(self).backoff == old(self).backoff
                    &&& action == (SyncAction::OpenStream { cursor: old(self).cursor })
                },
                (SyncPhase::OpeningStream, SyncEvent::StreamOpened) => {
                    // the one transition that resets the backoff
                    &&& final(self).phase == SyncPhase::Streaming
                    &&& final(self).cursor == old(self).cursor
                    &&& final(self).backoff.current_ms == WS_BACKOFF_BASE_DELAY_MS
                    &&& action == SyncAction::AwaitStream
                },
                (SyncPhase::OpeningStream, SyncEvent::StreamOpenFailed) => {
                    &&& final(self).phase == SyncPhase::BackingOff
                    &&& final(self).cursor == old(self).cursor
                    &&& final(self).backoff.current_ms == (if 2 * old(self).backoff.current_ms
                        <= WS_BACKOFF_MAX_DELAY_MS {
                        2 * old(self).backoff.current_ms
                    } else {
                        WS_BACKOFF_MAX_DELAY_MS as int
                    })
                    &&& action == (SyncAction::Sleep { delay_ms: old(self).backoff.current_ms })
                },
                (SyncPhase::OpeningStream, SyncEvent::StreamOpenTimedOut) => {
                    // the cursor may be stale: restart from catch-up
                    &&& final(self).phase == SyncPhase::CatchingUp
                    &&& final(self).cursor == old(self).cursor
                    &&& final(self).backoff == old(self).backoff
                    &&& action == (SyncAction::RunCatchUp { cursor: old(self).cursor })
                },
                (SyncPhase::Streaming, SyncEvent::StreamClosed) => {
                    // loss of the push channel degrades to reconnect and
                    // catch up, the same path used at startup
                    &&& final(self).phase == SyncPhase::BackingOff
                    &&& final(self).cursor == old(self).cursor
                    &&& final(self).backoff.current_ms == (if 2 * old(self).backoff.current_ms
                        <= WS_BACKOFF_MAX_DELAY_MS {
                        2 * old(self).backoff.current_ms
                    } else {
                        WS_BACKOFF_MAX_DELAY_MS as int
                    })
                    &&& action == (SyncAction::Sleep { delay_ms: old(self).backoff.current_ms })
                },
                (SyncPhase::BackingOff, _) => {
                    &&& final(self).phase == SyncPhase::WaitingForSession
                    &&& final(self).cursor == old(self).cursor
                    &&& final(self).backoff == old(self).backoff
                    &&& action == SyncAction::AwaitSession
                },
                (SyncPhase::Stopped, _) => action == SyncAction::Exit && *final(self) == *old(self),
                _ => *final(self) == *old(self),
            },
    {
        if matches!(event, SyncEvent::ShutdownRequested) {
            self.phase = SyncPhase::Stopped;
            return SyncAction::Exit;
        }
        match (self.phase, event) {
            (SyncPhase::WaitingForSession, SyncEvent::SessionActive) => {
                self.phase = SyncPhase::CatchingUp;
                SyncAction::RunCatchUp { cursor: self.cursor }
            },
            (SyncPhase::CatchingUp, SyncEvent::CaughtUp { cursor }) => {
                self.phase = SyncPhase::OpeningStream;
                self.cursor = cursor;
                SyncAction::OpenStream { cursor }
            },
            (SyncPhase::CatchingUp, SyncEvent::CatchUpFailed) => {
                self.phase = SyncPhase::OpeningStream;
                SyncAction::OpenStream { cursor: self.cursor }
            },
            (SyncPhase::OpeningStream, SyncEvent::StreamOpened) => {
                self.phase = SyncPhase::Streaming;
                self.backoff.reset();
                SyncAction::AwaitStream
            },
            (SyncPhase::OpeningStream, SyncEvent::StreamOpenFailed) => {
                self.phase = SyncPhase::BackingOff;
                let delay = self.backoff.next_wait();
                SyncAction::Sleep { delay_ms: delay }
            },
            (SyncPhase::OpeningStream, SyncEvent::StreamOpenTimedOut) => {
                self.phase = SyncPhase::CatchingUp;
                SyncAction::RunCatchUp { cursor: self.cursor }
            },
            (SyncPhase::Streaming, SyncEvent::StreamClosed) => {
                self.phase = SyncPhase::BackingOff;
                let delay = self.backoff.next_wait();
                SyncAction::Sleep { delay_ms: delay }
            },
            (SyncPhase::BackingOff, _) => {
                self.phase = SyncPhase::WaitingForSession;
                SyncAction::AwaitSession
            },
            (SyncPhase::Stopped, _) => SyncAction::Exit,
            _ => {
                let a = match self.phase {
                    SyncPhase::WaitingForSession => SyncAction::AwaitSession,
                    SyncPhase::CatchingUp => SyncAction::RunCatchUp { cursor: self.cursor },
                    SyncPhase::OpeningStream => SyncAction::AwaitStream,
                    SyncPhase::Streaming => SyncAction::AwaitStream,
                    SyncPhase::BackingOff => SyncAction::AwaitSession,
                    SyncPhase::Stopped => SyncAction::Exit,
                };
                a
            },
        }
    }
}

} // verus!