use vstd::prelude::*;
use crate::backoff::{delay_at, Backoff};
use crate::errors::ArbitrageError;

verus! {

/// The two phases of one connection target's lifecycle.
#[derive(Clone, Copy, PartialEq, Eq, Structural, Debug)]
pub enum ConsumerPhase {
    Idle,
    Connected,
}

/// What the surrounding socket loop reports to the state machine.
pub enum ConsumerEvent {
    /// Idle and ready for the next connection attempt.
    WakeIdle,
    /// The websocket handshake succeeded.
    ConnectSucceeded,
    /// The websocket handshake failed.
    ConnectFailed,
    /// One inbound frame arrived.
    FrameReceived,
    /// The wall-clock heartbeat fired.
    HeartbeatTick,
    /// The stream loop ended with this error.
    StreamEnded(ArbitrageError),
    /// The process-wide shutdown signal arrived.
    Shutdown,
}

/// What the surrounding socket loop must do next.
pub enum ConsumerAction {
    /// Attempt the websocket handshake now.
    Connect,
    /// Wait this many seconds, then attempt the handshake.
    SleepThenConnect(u64),
    /// The schedule is exhausted after this many attempts: give up.
    FailExhausted(u32),
    /// Connected: invoke `on_connect` (exactly once per handshake).
    InvokeOnConnect,
    /// Hand the frame to `on_message`.
    DispatchMessage,
    /// Log the number of frames since the last tick; the counter restarts.
    LogHeartbeat(u64),
    /// Invoke `on_disconnect` (exactly once per Connected exit), then go
    /// back to reconnecting.
    DisconnectThenRetry,
    /// Invoke `on_disconnect`, then unwind cleanly.
    DisconnectThenExit,
    /// Invoke `on_disconnect`, then terminate the worker with this error.
    DisconnectThenTerminate(String),
    /// Try again from the backoff schedule.
    Retry,
    /// The event does not apply in the current phase.
    Ignore,
}

/// The per-connection state machine of one venue socket: idle, delay by
/// the backoff schedule, connect, stream until an error, disconnect, repeat;
/// a `Warning` or recoverable error schedules a reconnect, an unrecoverable
/// one terminates, shutdown unwinds cleanly.
pub struct WsConsumerState {
    pub phase: ConsumerPhase,
    pub backoff: Backoff,
    pub msgs_since_heartbeat: u64,
}

impl WsConsumerState {
    pub open spec fn wf(&self) -> bool {
        self.backoff.wf()
    }

    pub fn new(backoff: Backoff) -> (r: WsConsumerState)
        requires
            backoff.wf(),
        ensures
            r.wf(),
            r.phase == ConsumerPhase::Idle,
            r.backoff == backoff,
            r.msgs_since_heartbeat == 0,
    {
        WsConsumerState { phase: ConsumerPhase::Idle, backoff, msgs_since_heartbeat: 0 }
    }

    /// The transition function: what each event does to the state and what
    /// the loop must do next.
    pub fn step(&mut self, event: ConsumerEvent) -> (r: ConsumerAction)
        requires
            old(self).wf(),
        ensures
            final(self).wf(),
            ({
                let s0 = *old(self);
                let s1 = *final(self);
                match event {
                    ConsumerEvent::WakeIdle => {
                        if s0.phase != ConsumerPhase::Idle {
                            r == ConsumerAction::Ignore && s1 == s0
                        } else if s0.backoff.spec_iteration() >= s0.backoff.spec_max_iterations() {
                            &&& r == ConsumerAction::FailExhausted(s0.backoff.spec_iteration())
                            &&& s1.phase == ConsumerPhase::Idle
                            &&& s1.backoff.spec_iteration() == s0.backoff.spec_iteration()
                        } else {
                            let d = delay_at(
                                s0.backoff.spec_iteration() as nat,
                                s0.backoff.spec_cap_secs(),
                            );
                            &&& r == (if d == 0 {
                                ConsumerAction::Connect
                            } else {
                                ConsumerAction::SleepThenConnect(d)
                            })
                            &&& s1.phase == ConsumerPhase::Idle
                            &&& s1.backoff.spec_iteration() == s0.backoff.spec_iteration() + 1
                        }
                    },
                    ConsumerEvent::ConnectSucceeded => {
                        if s0.phase != ConsumerPhase::Idle {
                            r == ConsumerAction::Ignore && s1 == s0
                        } else {
                            &&& r == ConsumerAction::InvokeOnConnect
                            &&& s1.phase == ConsumerPhase::Connected
                            &&& s1.backoff.spec_iteration() == 0
                            &&& s1.msgs_since_heartbeat == 0
                        }
                    },
                    ConsumerEvent::ConnectFailed => {
                        if s0.phase != ConsumerPhase::Idle {
                            r == ConsumerAction::Ignore && s1 == s0
                        } else {
                            r == ConsumerAction::Retry && s1 == s0
                        }
                    },
                    ConsumerEvent::FrameReceived => {
                        if s0.phase != ConsumerPhase::Connected {
                            r == ConsumerAction::Ignore && s1 == s0
                        } else {
                            &&& r == ConsumerAction::DispatchMessage
                            &&& s1.phase == ConsumerPhase::Connected
                            &&& s1.backoff == s0.backoff
                            &&& s1.msgs_since_heartbeat == (if s0.msgs_since_heartbeat
                                < u64::MAX {
                                s0.msgs_since_heartbeat + 1
                            } else {
                                u64::MAX as int
                            })
                        }
                    },
                    ConsumerEvent::HeartbeatTick => {
                        if s0.phase != ConsumerPhase::Connected {
                            r == ConsumerAction::Ignore && s1 == s0
                        } else {
                            &&& r == ConsumerAction::LogHeartbeat(s0.msgs_since_heartbeat)
                            &&& s1.phase == ConsumerPhase::Connected
                            &&& s1.backoff == s0.backoff
                            &&& s1.msgs_since_heartbeat == 0
                        }
                    },
                    ConsumerEvent::StreamEnded(e) => {
                        if s0.phase != ConsumerPhase::Connected {
                            r == ConsumerAction::Ignore && s1 == s0
                        } else {
                            &&& s1.phase == ConsumerPhase::Idle
                            &&& s1.backoff == s0.backoff
                            &&& (match e {
                                ArbitrageError::Exit => r == ConsumerAction::DisconnectThenExit,
                                ArbitrageError::UnrecoverableError(m) => r
                                    == ConsumerAction::DisconnectThenTerminate(m),
                                _ => r == ConsumerAction::DisconnectThenRetry,
                            })
                        }
                    },
                    ConsumerEvent::Shutdown => {
                        if s0.phase != ConsumerPhase::Connected {
                            r == ConsumerAction::Ignore && s1 == s0
                        } else {
                            &&& s1.phase == ConsumerPhase::Idle
                            &&& s1.backoff == s0.backoff
                            &&& r == ConsumerAction::DisconnectThenExit
                        }
                    },
                }
            }),
    {
        match event {
            ConsumerEvent::WakeIdle => {
                if !matches!(self.phase, ConsumerPhase::Idle) {
                    return ConsumerAction::Ignore;
                }
                match self.backoff.next() {
                    None => ConsumerAction::FailExhausted(self.backoff.get_iteration_count()),
                    Some(d) => {
                        if d == 0 {
                            ConsumerAction::Connect
                        } else {
                            ConsumerAction::SleepThenConnect(d)
                        }
                    },
                }
            },
            ConsumerEvent::ConnectSucceeded => {
                if !matches!(self.phase, ConsumerPhase::Idle) {
                    return ConsumerAction::Ignore;
                }
                self.phase = ConsumerPhase::Connected;
                self.backoff.reset();
                self.msgs_since_heartbeat = 0;
                ConsumerAction::InvokeOnConnect
            },
            ConsumerEvent::ConnectFailed => {
                if !matches!(self.phase, ConsumerPhase::Idle) {
                    return ConsumerAction::Ignore;
                }
                ConsumerAction::Retry
            },
            ConsumerEvent::FrameReceived => {
                if !matches!(self.phase, ConsumerPhase::Connected) {
                    return ConsumerAction::Ignore;
                }
                if self.msgs_since_heartbeat < u64::MAX {
                    self.msgs_since_heartbeat = self.msgs_since_heartbeat + 1;
                }
                ConsumerAction::DispatchMessage
            },
            ConsumerEvent::HeartbeatTick => {
                if !matches!(self.phase, ConsumerPhase::Connected) {
                    return ConsumerAction::Ignore;
                }
                let c = self.msgs_since_heartbeat;
                self.msgs_since_heartbeat = 0;
                ConsumerAction::LogHeartbeat(c)
            },
            ConsumerEvent::StreamEnded(e) => {
                if !matches!(self.phase, ConsumerPhase::Connected) {
                    return ConsumerAction::Ignore;
                }
                self.phase = ConsumerPhase::Idle;
                match e {
                    ArbitrageError::Exit => ConsumerAction::DisconnectThenExit,
                    ArbitrageError::UnrecoverableError(m) => ConsumerAction::DisconnectThenTerminate(
                        m,
                    ),
                    _ => ConsumerAction::DisconnectThenRetry,
                }
            },
            ConsumerEvent::Shutdown => {
                if !matches!(self.phase, ConsumerPhase::Connected) {
                    return ConsumerAction::Ignore;
                }
                self.phase = ConsumerPhase::Idle;
                ConsumerAction::DisconnectThenExit
            },
        }
    }
}

} // verus!
