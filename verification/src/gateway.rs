//! The decisions of the gateway to the bridge's API: how many requests may be
//! in flight, and when a failed request is tried again.

use vstd::prelude::*;

verus! {

/// The number of requests that may be in flight at once.
pub const MAX_IN_FLIGHT: usize = 3;

/// The number of times a failed request is tried again.
pub const MAX_RETRIES: u8 = 5;

/// The delay before the first retry, in milliseconds.
pub const BACKOFF_UNIT_MS: u64 = 100;

/// The delay before retry number `attempt`, in milliseconds: the square of
/// the number, times the unit.
pub open spec fn backoff_ms(attempt: int) -> int {
    attempt * attempt * (BACKOFF_UNIT_MS as int)
}

/// The delay before retry number `attempt`, in milliseconds.
pub fn backoff_delay_ms(attempt: u8) -> (ms: u64)
    ensures
        ms == backoff_ms(attempt as int),
{
    let a: u64 = attempt as u64;
    assert(a * a <= 65025) by (nonlinear_arith)
        requires
            a <= 255,
    ;
    a * a * BACKOFF_UNIT_MS
}

/// Whether a failure is transient, by the status of the response: a failure
/// without a response, as a broken connection is, and a status of the server
/// error class are; any other status is not.
pub open spec fn is_transient_status(status: Option<u16>) -> bool {
    match status {
        Some(code) => 500 <= code <= 599,
        None => true,
    }
}

/// Whether a failure with this status, if it has one, is worth another
/// attempt.
pub fn is_transient(status: Option<u16>) -> (transient: bool)
    ensures
        transient == is_transient_status(status),
{
    match status {
        Some(code) => 500 <= code && code <= 599,
        None => true,
    }
}

/// How far a request has come: the number of retries that were asked for.
#[derive(Clone, Copy, Debug, PartialEq, Eq, Structural)]
pub struct RetryState {
    pub retries: u8,
}

/// What the gateway does after an attempt.
#[derive(Debug, PartialEq)]
pub enum RetryStep<T, E> {
    /// Hand the result to the caller.
    Done(Result<T, E>),
    /// Wait for so many milliseconds, take a permit again, and try again.
    RetryAfter(u64),
}

impl RetryState {
    /// The state and the step that follow an attempt: a success is handed
    /// on; a transient failure is retried after the backoff delay, until the
    /// retries are used up and the last failure is handed on; a failure that
    /// is not transient is handed on at once.
    pub open spec fn after_attempt<T, E>(self, outcome: Result<T, E>, transient: bool) -> (
        RetryState,
        RetryStep<T, E>,
    ) {
        match outcome {
            Ok(value) => (self, RetryStep::Done(Ok(value))),
            Err(error) => if transient && self.retries < MAX_RETRIES {
                (
                    RetryState { retries: (self.retries + 1) as u8 },
                    RetryStep::RetryAfter(backoff_ms(self.retries + 1) as u64),
                )
            } else {
                (self, RetryStep::Done(Err(error)))
            },
        }
    }

    /// The state and the step that follow an attempt whose failure, if it
    /// failed, is transient.
    pub open spec fn after<T, E>(self, outcome: Result<T, E>) -> (RetryState, RetryStep<T, E>) {
        self.after_attempt(outcome, true)
    }

    /// The state of a request before its first attempt.
    pub fn new() -> (state: RetryState)
        ensures
            state.retries == 0,
    {
        RetryState { retries: 0 }
    }

    /// Decides what follows an attempt; `transient` says whether its
    /// failure, if it failed, is worth another attempt.
    pub fn on_attempt<T, E>(&mut self, outcome: Result<T, E>, transient: bool) -> (step: RetryStep<
        T,
        E,
    >)
        ensures
            (*final(self), step) == old(self).after_attempt(outcome, transient),
    {
        match outcome {
            Ok(value) => RetryStep::Done(Ok(value)),
            Err(error) => {
                if transient && self.retries < MAX_RETRIES {
                    self.retries = self.retries + 1;
                    RetryStep::RetryAfter(backoff_delay_ms(self.retries))
                } else {
                    RetryStep::Done(Err(error))
                }
            },
        }
    }

    /// Decides what follows an attempt whose failure, if it failed, is
    /// transient.
    pub fn on_outcome<T, E>(&mut self, outcome: Result<T, E>) -> (step: RetryStep<T, E>)
        ensures
            (*final(self), step) == old(self).after(outcome),
    {
        self.on_attempt(outcome, true)
    }
}

/// A request that fails every time is tried again exactly `MAX_RETRIES`
/// times; the failure after the last retry is handed to the caller.
pub proof fn lemma_retries_are_bounded<T, E>(state: RetryState, error: E)
    ensures
        state.retries < MAX_RETRIES ==> state.after::<T, E>(Err(error)).0.retries == state.retries
            + 1,
        state.retries >= MAX_RETRIES ==> state.after::<T, E>(Err(error)).1 == RetryStep::<
            T,
            E,
        >::Done(Err(error)),
        state.after::<T, E>(Err(error)).1 matches RetryStep::RetryAfter(ms) ==> ms == (
        state.retries + 1) * (state.retries + 1) * 100,
{
    if state.retries < MAX_RETRIES {
        let n = state.retries + 1;
        assert(n * n * 100 <= 2500) by (nonlinear_arith)
            requires
                1 <= n <= 5,
        ;
    }
}

} // verus!
