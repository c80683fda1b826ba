//! Keeping a session alive while it plays: when to send a request, which
//! one, and when to give the session up.

use crate::error::ErrorKind;
use vstd::prelude::*;

verus! {

/// The shortest time between two keep-alive requests, in milliseconds.
pub const MIN_INTERVAL_MS: u64 = 5_000;

/// The number of keep-alive requests in a row that may fail before the
/// session is given up.
pub const MAX_FAILURES: u32 = 3;

/// The request that keeps a session alive.
#[derive(Copy, Clone, Debug, PartialEq, Eq, Structural)]
pub enum Method {
    /// `GET_PARAMETER`, for servers that say they take it.
    GetParameter,
    /// `OPTIONS`, for all others.
    Options,
}

/// What has happened.
#[derive(Copy, Clone, Debug, PartialEq, Eq, Structural)]
pub enum Event {
    /// The time `now_ms` has come, in milliseconds on the caller's clock.
    Tick { now_ms: u64 },
    /// The keep-alive request was answered, at the time `now_ms`.
    Answered { now_ms: u64 },
    /// The keep-alive request failed, at the time `now_ms`.
    Failed { now_ms: u64 },
    /// Interleaved data has arrived.
    Traffic,
}

/// What has to be done.
#[derive(Copy, Clone, Debug, PartialEq, Eq, Structural)]
pub enum Action {
    /// Nothing.
    Wait,
    /// Send a keep-alive request.
    Send(Method),
    /// Give the session up: it has timed out.
    TimeOut,
}

impl Action {
    /// The kind of error with which the session ends, if this action ends
    /// it: a session that is given up has timed out.
    pub open spec fn spec_error_kind(self) -> Option<ErrorKind> {
        match self {
            Action::TimeOut => Some(ErrorKind::SessionTimeout),
            _ => None,
        }
    }

    /// The kind of error with which the session ends, if this action ends
    /// it.
    pub fn error_kind(self) -> (r: Option<ErrorKind>)
        ensures
            r == self.spec_error_kind(),
    {
        match self {
            Action::TimeOut => Some(ErrorKind::SessionTimeout),
            _ => None,
        }
    }
}

/// The time between two keep-alive requests for a session that the server
/// times out after `session_timeout_s` seconds: half of that, but no less
/// than [`MIN_INTERVAL_MS`].
pub open spec fn spec_interval_ms(session_timeout_s: u32) -> u64 {
    if session_timeout_s * 500 > MIN_INTERVAL_MS {
        (session_timeout_s * 500) as u64
    } else {
        MIN_INTERVAL_MS
    }
}

/// The request that keeps a session alive: `GET_PARAMETER` if the server
/// has said that it takes it, `OPTIONS` otherwise.
pub open spec fn spec_method(get_parameter_advertised: bool) -> Method {
    if get_parameter_advertised {
        Method::GetParameter
    } else {
        Method::Options
    }
}

/// The state of keeping a session alive.
#[derive(Copy, Clone, Debug, PartialEq, Eq, Structural)]
pub struct Keepalive {
    /// The request that is sent.
    pub method: Method,
    /// The time between two requests, in milliseconds.
    pub interval_ms: u64,
    /// The time at which the next request is due.
    pub due_ms: u64,
    /// Whether a request is under way.
    pub in_flight: bool,
    /// How many requests have failed in a row without interleaved data in
    /// between.
    pub failures: u32,
    /// Whether the session has been given up.
    pub timed_out: bool,
}

/// `due_ms` moved on by `interval_ms`, as far as the clock goes.
pub open spec fn spec_later(now_ms: u64, interval_ms: u64) -> u64 {
    if now_ms + interval_ms > u64::MAX {
        u64::MAX
    } else {
        (now_ms + interval_ms) as u64
    }
}

impl Keepalive {
    /// What holds of every state: the requests that failed in a row are
    /// fewer than would end the session, unless it has ended.
    pub open spec fn valid(self) -> bool {
        &&& self.timed_out <==> self.failures >= MAX_FAILURES
        &&& self.failures <= MAX_FAILURES
        &&& self.timed_out ==> !self.in_flight
    }

    /// The state at the time `now_ms`, when the session starts to play.
    pub open spec fn spec_start(
        now_ms: u64,
        session_timeout_s: u32,
        get_parameter_advertised: bool,
    ) -> Keepalive {
        Keepalive {
            method: spec_method(get_parameter_advertised),
            interval_ms: spec_interval_ms(session_timeout_s),
            due_ms: spec_later(now_ms, spec_interval_ms(session_timeout_s)),
            in_flight: false,
            failures: 0,
            timed_out: false,
        }
    }

    /// The state after `event`, and what has to be done.
    ///
    /// - When a request is due and none is under way, one is sent.
    /// - An answer counts the failures anew. The next request is due one
    ///   interval later.
    /// - A failure is counted. With the third in a row the session is given
    ///   up; before that, the next request is due one interval later.
    /// - Interleaved data counts the failures anew.
    ///
    /// A session that has been given up stays so.
    pub open spec fn spec_next(self, event: Event) -> (Keepalive, Action) {
        if self.timed_out {
            (self, Action::TimeOut)
        } else {
            match event {
                Event::Tick { now_ms } => if !self.in_flight && now_ms >= self.due_ms {
                    (Keepalive { in_flight: true, ..self }, Action::Send(self.method))
                } else {
                    (self, Action::Wait)
                },
                Event::Answered { now_ms } => (
                    Keepalive {
                        in_flight: false,
                        failures: 0,
                        due_ms: spec_later(now_ms, self.interval_ms),
                        ..self
                    },
                    Action::Wait,
                ),
                Event::Failed { now_ms } => if self.failures + 1 >= MAX_FAILURES {
                    (
                        Keepalive {
                            in_flight: false,
                            failures: MAX_FAILURES,
                            timed_out: true,
                            ..self
                        },
                        Action::TimeOut,
                    )
                } else {
                    (
                        Keepalive {
                            in_flight: false,
                            failures: (self.failures + 1) as u32,
                            due_ms: spec_later(now_ms, self.interval_ms),
                            ..self
                        },
                        Action::Wait,
                    )
                },
                Event::Traffic => (Keepalive { failures: 0, ..self }, Action::Wait),
            }
        }
    }

    /// Starts to keep a session alive at the time `now_ms`. The server
    /// times the session out after `session_timeout_s` seconds.
    pub fn start(now_ms: u64, session_timeout_s: u32, get_parameter_advertised: bool) -> (r:
        Keepalive)
        ensures
            r == Keepalive::spec_start(now_ms, session_timeout_s, get_parameter_advertised),
            r.valid(),
    {
        let interval_ms: u64 = interval_ms(session_timeout_s);
        Keepalive {
            method: method(get_parameter_advertised),
            interval_ms,
            due_ms: now_ms.saturating_add(interval_ms),
            in_flight: false,
            failures: 0,
            timed_out: false,
        }
    }

    /// Takes note of `event`, and says what has to be done.
    pub fn next(&mut self, event: Event) -> (r: Action)
        requires
            old(self).valid(),
        ensures
            final(self).valid(),
            (*final(self), r) == old(self).spec_next(event),
    {
        if self.timed_out {
            return Action::TimeOut;
        }
        match event {
            Event::Tick { now_ms } => {
                if !self.in_flight && now_ms >= self.due_ms {
                    self.in_flight = true;
                    Action::Send(self.method)
                } else {
                    Action::Wait
                }
            },
            Event::Answered { now_ms } => {
                self.in_flight = false;
                self.failures = 0;
                self.due_ms = now_ms.saturating_add(self.interval_ms);
                Action::Wait
            },
            Event::Failed { now_ms } => {
                self.in_flight = false;
                if self.failures + 1 >= MAX_FAILURES {
                    self.failures = MAX_FAILURES;
                    self.timed_out = true;
                    Action::TimeOut
                } else {
                    self.failures = self.failures + 1;
                    self.due_ms = now_ms.saturating_add(self.interval_ms);
                    Action::Wait
                }
            },
            Event::Traffic => {
                self.failures = 0;
                Action::Wait
            },
        }
    }
}

/// The time between two keep-alive requests, in milliseconds.
pub fn interval_ms(session_timeout_s: u32) -> (r: u64)
    ensures
        r == spec_interval_ms(session_timeout_s),
        r >= MIN_INTERVAL_MS,
{
    let half: u64 = (session_timeout_s as u64) * 500;
    if half > MIN_INTERVAL_MS {
        half
    } else {
        MIN_INTERVAL_MS
    }
}

/// The request that keeps a session alive.
pub fn method(get_parameter_advertised: bool) -> (r: Method)
    ensures
        r == spec_method(get_parameter_advertised),
{
    if get_parameter_advertised {
        Method::GetParameter
    } else {
        Method::Options
    }
}

/// A session is given up after three keep-alive requests in a row have
/// failed and no interleaved data has arrived in between, and not before.
pub proof fn lemma_three_failures_time_out(k: Keepalive, t1: u64, t2: u64, t3: u64)
    requires
        k.valid(),
        !k.timed_out,
        k.failures == 0,
    ensures
        ({
            let (k1, a1) = k.spec_next(Event::Failed { now_ms: t1 });
            let (k2, a2) = k1.spec_next(Event::Failed { now_ms: t2 });
            let (k3, a3) = k2.spec_next(Event::Failed { now_ms: t3 });
            &&& a1 == Action::Wait && !k1.timed_out
            &&& a2 == Action::Wait && !k2.timed_out
            &&& a3 == Action::TimeOut && k3.timed_out
        }),
        ({
            let (k1, a1) = k.spec_next(Event::Failed { now_ms: t1 });
            let (k2, a2) = k1.spec_next(Event::Failed { now_ms: t2 });
            let (k3, a3) = k2.spec_next(Event::Traffic);
            let (k4, a4) = k3.spec_next(Event::Failed { now_ms: t3 });
            a4 == Action::Wait && !k4.timed_out && k4.failures == 1
        }),
{
}

/// Every event leaves a valid state valid, and a session that has been
/// given up stays so.
pub proof fn lemma_next_valid(k: Keepalive, event: Event)
    requires
        k.valid(),
    ensures
        k.spec_next(event).0.valid(),
        k.timed_out ==> k.spec_next(event) == (k, Action::TimeOut),
        k.spec_next(event).1 == Action::TimeOut <==> k.spec_next(event).0.timed_out,
        k.spec_next(event).0.method == k.method,
        k.spec_next(event).0.interval_ms == k.interval_ms,
{
}

/// For how many milliseconds a session that plays may be without a packet,
/// unless the caller says otherwise.
pub const DEFAULT_IDLE_TIMEOUT_MS: u64 = 10_000;

/// How long a session that plays has been without a packet.
#[derive(Copy, Clone, Debug, PartialEq, Eq, Structural)]
pub struct Idle {
    /// For how many milliseconds the session may be without a packet.
    pub timeout_ms: u64,
    /// The time of the last packet, or of the start.
    pub last_ms: u64,
}

impl Idle {
    /// Whether the session has been without a packet for too long at the
    /// time `now_ms`: it has timed out.
    pub open spec fn spec_expired(self, now_ms: u64) -> bool {
        now_ms - self.last_ms >= self.timeout_ms
    }

    /// A session that starts to play at the time `now_ms`.
    pub fn start(now_ms: u64, timeout_ms: u64) -> (r: Idle)
        ensures
            r == (Idle { timeout_ms, last_ms: now_ms }),
    {
        Idle { timeout_ms, last_ms: now_ms }
    }

    /// Takes note of a packet that has arrived at the time `now_ms`.
    pub fn note_packet(&mut self, now_ms: u64)
        ensures
            *final(self) == (Idle { last_ms: now_ms, ..*old(self) }),
    {
        self.last_ms = now_ms;
    }

    /// Whether the session has timed out at the time `now_ms`.
    pub fn expired(&self, now_ms: u64) -> (r: bool)
        ensures
            r == self.spec_expired(now_ms),
    {
        now_ms >= self.last_ms && now_ms - self.last_ms >= self.timeout_ms
    }
}

} // verus!
