//! A request for one identifier, with its waits timed.
//!
//! The caller reads the wall clock and a stopwatch of its own, and shows both
//! to the request until the identifier is issued or a wait has lasted too
//! long. Like the generator, a request reads no clock itself.

use vstd::prelude::*;
use crate::generator::{GeneratorModel, GeneratorState, Step, Wait};
use crate::metrics::Metrics;

verus! {

/// How long one wait for the clock may last, in milliseconds.
pub const CLOCK_WAIT_TIMEOUT_MS: u64 = 100;

/// How far a request for one identifier has come. Times are in milliseconds
/// on a stopwatch that the caller started with the request.
#[derive(Clone, Copy, Debug, PartialEq, Eq)]
pub struct Request {
    /// What the request is waiting for, once it has had to wait.
    pub waiting: Option<Wait>,
    /// When that wait began.
    pub since: u128,
}

/// What one clock reading did for a request whose waits are timed.
#[derive(Clone, Copy, Debug, PartialEq, Eq)]
pub enum Poll {
    /// The identifier was issued; the request is over.
    Issued(u64),
    /// The reading has to be waited out; the clock is to be read again.
    Pending,
    /// The wait has lasted `CLOCK_WAIT_TIMEOUT_MS`; the request has failed.
    TimedOut,
}

impl Request {
    /// What a reading taken at `elapsed` does for the request: it times out
    /// when the reading leaves it in the wait that it was in and that wait
    /// has lasted the full time.
    pub open spec fn outcome(self, state: GeneratorModel, now: nat, elapsed: nat) -> Poll {
        match state.decide(self.waiting, now) {
            Step::Issued(id) => Poll::Issued(id),
            Step::Waiting(wait) => if self.waiting == Some(wait) && elapsed >= self.since
                + CLOCK_WAIT_TIMEOUT_MS {
                Poll::TimedOut
            } else {
                Poll::Pending
            },
        }
    }

    /// The request after that reading: a wait that begins is timed from the
    /// reading that began it.
    pub open spec fn next(self, state: GeneratorModel, now: nat, elapsed: u128) -> Request {
        match state.decide(self.waiting, now) {
            Step::Issued(_) => self,
            Step::Waiting(wait) => if self.waiting == Some(wait) {
                self
            } else {
                Request { waiting: Some(wait), since: elapsed }
            },
        }
    }

    /// A request that is in the wait that a run of waited readings leaves goes
    /// on as the run does: the next reading puts it in the wait of the longer
    /// run and is reported as the longer run reports it. So what `pending`
    /// and `reported` say of a run holds of the polls of one request, however
    /// many there are.
    pub proof fn lemma_poll_follows_run(
        self,
        state: GeneratorModel,
        metrics: Metrics,
        readings: Seq<nat>,
        now: nat,
        elapsed: u128,
    )
        requires
            state.run(readings) == state,
            self.waiting == state.pending(readings),
        ensures
            state.run(readings.push(now)) == state.after(now),
            !state.accepts(now) ==> state.pending(readings.push(now)) == self.next(
                state,
                now,
                elapsed,
            ).waiting,
            state.accepts(now) ==> state.pending(readings.push(now)) is None,
            state.reported(metrics, readings.push(now)) == state.report(
                state.reported(metrics, readings),
                self.waiting,
                now,
            ),
    {
        assert(readings.push(now).drop_last() =~= readings);
    }

    /// A request that has not read the clock yet.
    pub fn new() -> (request: Request)
        ensures
            request == (Request { waiting: None, since: 0 }),
    {
        Request { waiting: None, since: 0 }
    }

    /// Shows the generator one clock reading on behalf of the request, taken
    /// when the request has run for `elapsed` milliseconds.
    pub fn poll(
        &mut self,
        state: &mut GeneratorState,
        metrics: &mut Metrics,
        now: u64,
        elapsed: u128,
    ) -> (poll: Poll)
        ensures
            old(state)@.wf(),
            final(state)@.wf(),
            poll == old(self).outcome(old(state)@, now as nat, elapsed as nat),
            *final(self) == old(self).next(old(state)@, now as nat, elapsed),
            final(state)@ == old(state)@.after(now as nat),
            *final(metrics) == old(state)@.report(*old(metrics), old(self).waiting, now as nat),
    {
        match state.observe(metrics, self.waiting, now) {
            Step::Issued(id) => Poll::Issued(id),
            Step::Waiting(wait) => {
                let same = match (self.waiting, wait) {
                    (Some(Wait::ClockBehind), Wait::ClockBehind) => true,
                    (Some(Wait::SequenceExhausted), Wait::SequenceExhausted) => true,
                    _ => false,
                };
                if !same {
                    self.waiting = Some(wait);
                    self.since = elapsed;
                    Poll::Pending
                } else if elapsed >= self.since && elapsed - self.since
                    >= CLOCK_WAIT_TIMEOUT_MS as u128 {
                    Poll::TimedOut
                } else {
                    Poll::Pending
                }
            },
        }
    }
}

} // verus!
