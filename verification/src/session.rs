//! Session supervision: reconnection backoff, panic mapping, and the
//! single-shot stop signal.
//!
//! The supervisor's asynchronous plumbing (the runtime, the portal socket,
//! the sleep between attempts) lives in the embedding layer; the decisions
//! are made here. The exponential backoff itself comes from the backoff
//! crate and is held behind trusted wrappers: its intervals depend on the
//! clock and on randomization, so nothing is assumed about them.

use vstd::prelude::*;
use crate::errors::Error;

verus! {

#[verifier::external_type_specification]
#[verifier::external_body]
#[verifier::reject_recursive_types(C)]
pub struct ExExponentialBackoff<C>(backoff::exponential::ExponentialBackoff<C>);

#[verifier::external_type_specification]
#[verifier::external_body]
pub struct ExSystemClock(backoff::SystemClock);

/// Relies on backoff's `ExponentialBackoffBuilder`: builds the generator
/// with no overall elapsed-time bound, so retries never exhaust (the
/// default reconnection policy).
#[verifier::external_body]
fn new_unbounded_backoff() -> backoff::ExponentialBackoff {
    backoff::ExponentialBackoffBuilder::default().with_max_elapsed_time(None).build()
}

/// Relies on backoff's `Backoff::next_backoff`. The interval depends on
/// the clock and on randomization, so nothing is promised of the outcome:
/// callers handle `Some` and `None` alike.
#[verifier::external_body]
fn next_backoff_millis(b: &mut backoff::ExponentialBackoff) -> (r: Option<u64>) {
    match backoff::backoff::Backoff::next_backoff(b) {
        Some(d) => Some(d.as_millis() as u64),
        None => None,
    }
}

/// Relies on backoff's `Backoff::reset`, called when a portal connection
/// succeeds so the next outage starts from the initial interval.
#[verifier::external_body]
fn reset_backoff(b: &mut backoff::ExponentialBackoff) {
    backoff::backoff::Backoff::reset(b)
}

/// What the reconnection loop does after the portal session ended.
#[derive(Clone, Copy, PartialEq, Eq, Structural, Debug)]
pub enum ReconnectDecision {
    /// Report the connection error, sleep this many milliseconds, retry.
    RetryAfter(u64),
    /// The backoff is exhausted: escalate to a fatal disconnect.
    Fatal,
}

/// Maps the backoff's answer to the loop's action: an interval means
/// report-sleep-retry, exhaustion means a fatal disconnect.
pub fn decide_reconnect(next_backoff: Option<u64>) -> (r: ReconnectDecision)
    ensures
        r == (match next_backoff {
            Some(t) => ReconnectDecision::RetryAfter(t),
            None => ReconnectDecision::Fatal,
        }),
{
    match next_backoff {
        Some(t) => ReconnectDecision::RetryAfter(t),
        None => ReconnectDecision::Fatal,
    }
}

/// Drives the reconnection policy of the portal session.
pub struct ReconnectSupervisor {
    backoff: backoff::ExponentialBackoff,
}

impl ReconnectSupervisor {
    /// A supervisor with the default policy: exponential backoff, no
    /// overall bound, so it retries for ever.
    pub fn new() -> Self {
        ReconnectSupervisor { backoff: new_unbounded_backoff() }
    }

    /// The portal connected: the next outage backs off from the start.
    pub fn on_connected(&mut self) {
        reset_backoff(&mut self.backoff);
    }

    /// The portal session ended: decide whether to retry after an interval
    /// or to give up. Whatever interval the backoff draws, the decision is
    /// retry-with-that-interval or fatal.
    pub fn on_portal_disconnect(&mut self) -> (r: ReconnectDecision)
        ensures
            r is RetryAfter || r is Fatal,
    {
        let next = next_backoff_millis(&mut self.backoff);
        decide_reconnect(next)
    }
}

/// Maps an uncaught panic payload to the session error: a string payload
/// is carried, anything else is reported as a non-string payload.
pub fn panic_payload_error(payload: Option<String>) -> (r: Error)
    ensures
        r == (match payload {
            Some(s) => Error::Panic(s),
            None => Error::PanicNonStringPayload,
        }),
{
    match payload {
        Some(s) => Error::Panic(s),
        None => Error::PanicNonStringPayload,
    }
}

/// The session's stop state: the stop signal is single-shot and the
/// disconnect callback fires exactly once.
pub struct SessionState {
    pub stopped: bool,
}

impl SessionState {
    pub fn new() -> (r: Self)
        ensures
            !r.stopped,
    {
        SessionState { stopped: false }
    }

    /// Requests a disconnect. Returns whether the embedder's
    /// `on_disconnect` callback must fire: true on the first call only,
    /// so repeated disconnects are no-ops.
    pub fn disconnect(&mut self) -> (notify: bool)
        ensures
            final(self).stopped,
            notify == !old(self).stopped,
    {
        let notify = !self.stopped;
        self.stopped = true;
        notify
    }
}

/// The disconnect callback fires exactly once: two consecutive
/// `disconnect` calls on a fresh session notify on the first call and are
/// a no-op on the second. The hypotheses are the contracts of the two
/// calls.
pub proof fn lemma_disconnect_exactly_once(
    s0: SessionState,
    s1: SessionState,
    n1: bool,
    s2: SessionState,
    n2: bool,
)
    requires
        !s0.stopped,
        s1.stopped && n1 == !s0.stopped,
        s2.stopped && n2 == !s1.stopped,
    ensures
        n1 == true,
        n2 == false,
        s2.stopped,
{
}

} // verus!
