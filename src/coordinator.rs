//! The deduplication protocol as a state machine.
//!
//! A `Session` decides, for one call of `try_start`, what its driver does
//! next: issue a claim, sleep, run the effect, or hand back a memoized value.
//! The driver performs each step (the claim against the store, the sleep)
//! and reports what it observed; the session never waits or does I/O itself.
use vstd::prelude::*;

use crate::error::Error;
use crate::model::{
    lemma_unit_multiplier_is_constant, Config, DelaySchedule, PollStrategy, Process, ProcessStatus,
    MULTIPLIER_SCALE,
};
use crate::time::{Duration, Timestamp};

verus! {

/// Where an attempt to start a signal stands.
#[derive(Debug, Clone, Copy, PartialEq, Eq, Structural)]
pub enum Phase {
    /// The first claim has not been answered yet
    Claiming,
    /// A peer is running the effect; this caller waits on it
    Polling { attempt: u64, since: Timestamp, delay: Duration },
    /// A decision was handed to the driver
    Finished,
}

/// What the driver does next.
#[derive(Debug, Clone, PartialEq, Eq)]
pub enum Step<A> {
    /// Claim the key at the current instant, then report with `on_claim`
    Claim,
    /// Sleep this long, then report with `on_wake`
    Sleep(Duration),
    /// Run the effect and record its result
    New,
    /// Do not run the effect: this is the value of the run that completed
    Duplicate(A),
}

/// The lifecycle state of what a claim returned, if it returned a record.
pub open spec fn observed_status<Id, ProcessorId, A>(
    observed: Option<Process<Id, ProcessorId, A>>,
    now: Timestamp,
    max_processing_time: Duration,
) -> Option<ProcessStatus<A>> {
    match observed {
        Some(p) => Some(p.status_spec(now, max_processing_time)),
        None => None,
    }
}

/// The decision procedure of one call of `try_start`.
#[derive(Clone)]
pub struct Session {
    pub max_processing_time: Duration,
    pub strategy: PollStrategy,
    pub phase: Phase,
    pub schedule: DelaySchedule,
}

impl Session {
    /// While polling, the delay of the phase is that of its poll number under
    /// the strategy, and the schedule follows that poll.
    pub closed spec fn wf(self) -> bool {
        &&& self.schedule.wf()
        &&& self.schedule.strategy_spec() == self.strategy
        &&& (self.phase matches Phase::Polling { attempt, delay, .. } ==> {
            &&& self.schedule.attempt_spec() == attempt
            &&& delay == self.strategy.delay_spec(attempt as nat)
        })
    }

    /// The phase and step after a claim at `now` that observed `observed`:
    /// a completed record is a duplicate, a running one is waited on, and no
    /// record, an expired or a timed-out one lets this caller run.
    pub open spec fn claim_transition<A>(self, now: Timestamp, observed: Option<ProcessStatus<A>>) -> (Phase, Step<A>) {
        match observed {
            Some(ProcessStatus::Completed(v)) => (Phase::Finished, Step::Duplicate(v)),
            Some(ProcessStatus::Running) => match self.phase {
                Phase::Polling { delay, .. } => (self.phase, Step::Sleep(delay)),
                _ => {
                    let first = self.strategy.delay_spec(0);
                    (Phase::Polling { attempt: 0, since: now, delay: first }, Step::Sleep(first))
                },
            },
            _ => (Phase::Finished, Step::New),
        }
    }

    /// The phase and step after waking at `now` from a poll sleep: past the
    /// strategy's cap this caller takes over, else it claims again. A clock
    /// that reads before the start of the wait is an internal error.
    pub open spec fn wake_transition<A>(self, now: Timestamp) -> (Phase, Result<Step<A>, ()>) {
        match self.phase {
            Phase::Polling { attempt, since, delay } => {
                if now.nanos < since.nanos {
                    (Phase::Finished, Err(()))
                } else if now.nanos - since.nanos >= self.strategy.max_duration_spec().nanos {
                    (Phase::Finished, Ok(Step::New))
                } else {
                    let next_attempt: u64 = if attempt < u64::MAX { (attempt + 1) as u64 } else { attempt };
                    let next = Phase::Polling {
                        attempt: next_attempt,
                        since,
                        delay: self.strategy.delay_spec(next_attempt as nat),
                    };
                    (next, Ok(Step::Claim))
                }
            },
            _ => (self.phase, Err(())),
        }
    }

    /// A session for a coordinator configured with `config`: its first step
    /// is a claim.
    pub fn new<ProcessorId>(config: &Config<ProcessorId>) -> (r: Session)
        ensures
            r.wf(),
            r.max_processing_time == config.max_processing_time,
            r.strategy == config.poll_strategy,
            r.phase == Phase::Claiming,
    {
        Session {
            max_processing_time: config.max_processing_time,
            strategy: config.poll_strategy,
            phase: Phase::Claiming,
            schedule: DelaySchedule::new(config.poll_strategy),
        }
    }

    /// Reports the answer to a claim issued at `now`: the record that stood
    /// before the claim, or `None` where the claim created it.
    pub fn on_claim<Id, ProcessorId, A>(
        &mut self,
        now: Timestamp,
        observed: Option<Process<Id, ProcessorId, A>>,
    ) -> (r: Step<A>)
        requires
            old(self).wf(),
            !(old(self).phase is Finished),
        ensures
            final(self).wf(),
            (final(self).phase, r) == old(self).claim_transition(
                now,
                observed_status(observed, now, old(self).max_processing_time),
            ),
            final(self).max_processing_time == old(self).max_processing_time,
            final(self).strategy == old(self).strategy,
    {
        match observed {
            None => {
                self.phase = Phase::Finished;
                Step::New
            },
            Some(process) => {
                let status = process.status_at(now, self.max_processing_time);
                match status {
                    ProcessStatus::Completed(_) => {
                        self.phase = Phase::Finished;
                        Step::Duplicate(process.memoized.unwrap())
                    },
                    ProcessStatus::Running => {
                        match self.phase {
                            Phase::Polling { delay, .. } => Step::Sleep(delay),
                            _ => {
                                self.schedule = DelaySchedule::new(self.strategy);
                                let first = self.schedule.current();
                                self.phase = Phase::Polling { attempt: 0, since: now, delay: first };
                                Step::Sleep(first)
                            },
                        }
                    },
                    _ => {
                        self.phase = Phase::Finished;
                        Step::New
                    },
                }
            },
        }
    }

    /// Reports the end of a poll sleep, with the clock read at `now`.
    pub fn on_wake<A>(&mut self, now: Timestamp) -> (r: Result<Step<A>, Error>)
        requires
            old(self).wf(),
            old(self).phase is Polling,
        ensures
            final(self).wf(),
            final(self).phase == old(self).wake_transition::<A>(now).0,
            r is Ok <==> old(self).wake_transition::<A>(now).1 is Ok,
            r matches Ok(step) ==> old(self).wake_transition::<A>(now).1 == Ok::<Step<A>, ()>(step),
            r matches Err(e) ==> e is Internal,
            final(self).max_processing_time == old(self).max_processing_time,
            final(self).strategy == old(self).strategy,
    {
        match self.phase {
            Phase::Polling { attempt, since, delay } => {
                match now.duration_since(since) {
                    None => {
                        self.phase = Phase::Finished;
                        Err(Error::Internal("clock moved backwards while polling".to_string()))
                    },
                    Some(elapsed) => {
                        if elapsed.nanos >= self.strategy.max_duration().nanos {
                            self.phase = Phase::Finished;
                            Ok(Step::New)
                        } else {
                            let next_attempt = if attempt < u64::MAX { attempt + 1 } else { attempt };
                            let next_delay = if attempt < u64::MAX {
                                self.schedule.advance();
                                self.schedule.current()
                            } else {
                                delay
                            };
                            self.phase = Phase::Polling { attempt: next_attempt, since, delay: next_delay };
                            Ok(Step::Claim)
                        }
                    },
                }
            },
            _ => Err(Error::Internal("no poll in progress".to_string())),
        }
    }
}

/// A duplicate is handed exactly the memoized value of the completed record
/// that the claim observed, never a value of its own making.
pub proof fn lemma_duplicate_is_memoized_value<Id, ProcessorId, A>(
    s: Session,
    now: Timestamp,
    observed: Option<Process<Id, ProcessorId, A>>,
    v: A,
)
    requires
        s.claim_transition(now, observed_status(observed, now, s.max_processing_time)).1 == Step::Duplicate(v),
    ensures
        observed matches Some(p) && p.completed_at is Some && p.memoized == Some(v),
{
}

/// With a maximum processing time of zero, any record that nobody completed
/// is taken over at once, provided the clock does not read before its start.
pub proof fn lemma_zero_processing_time_takes_over<Id, ProcessorId, A>(
    s: Session,
    now: Timestamp,
    p: Process<Id, ProcessorId, A>,
)
    requires
        s.max_processing_time.nanos == 0,
        p.completed_at is None,
        p.started_at.nanos <= now.nanos,
    ensures
        s.claim_transition(now, observed_status(Some(p), now, s.max_processing_time)) == (
        Phase::Finished,
        Step::<A>::New,
        ),
{
}

/// Where the strategy's cap is shorter than its first delay, a caller that
/// finds a running record sleeps once and then takes over, provided the
/// sleep lasted at least the delay it was asked for.
pub proof fn lemma_short_cap_takes_over_after_one_sleep<Id, ProcessorId, A>(
    s: Session,
    start: Timestamp,
    p: Process<Id, ProcessorId, A>,
    woke: Timestamp,
)
    requires
        s.phase is Claiming,
        p.status_spec(start, s.max_processing_time) is Running,
        s.strategy.max_duration_spec().nanos < s.strategy.first_delay_spec().nanos,
        woke.nanos - start.nanos >= s.strategy.first_delay_spec().nanos,
    ensures
        ({
            let (phase, step) = s.claim_transition(start, observed_status(Some(p), start, s.max_processing_time));
            let waiting = Session { phase, ..s };
            &&& step == Step::<A>::Sleep(s.strategy.first_delay_spec())
            &&& waiting.wake_transition::<A>(woke) == (Phase::Finished, Ok::<Step<A>, ()>(Step::New))
        }),
{
}

/// With a backoff multiplier of exactly 1.0, a session polls at a constant
/// interval: every sleep it asks for, on a claim or on waking, lasts the base
/// delay, as with fixed-interval polling.
pub proof fn lemma_unit_multiplier_sleeps_are_constant<A>(
    s: Session,
    now: Timestamp,
    observed: Option<ProcessStatus<A>>,
    base_delay: Duration,
    max_duration: Duration,
)
    requires
        s.wf(),
        s.strategy == (PollStrategy::Backoff { base_delay, multiplier_milli: MULTIPLIER_SCALE, max_duration }),
    ensures
        s.claim_transition(now, observed).1 matches Step::Sleep(d) ==> d == base_delay,
        s.claim_transition(now, observed).0 matches Phase::Polling { delay, .. } ==> delay == base_delay,
        s.wake_transition::<A>(now).0 matches Phase::Polling { delay, .. } ==> delay == base_delay,
{
    lemma_unit_multiplier_is_constant(base_delay, max_duration, 0);
    if let Phase::Polling { attempt, .. } = s.phase {
        lemma_unit_multiplier_is_constant(base_delay, max_duration, attempt as nat);
        lemma_unit_multiplier_is_constant(base_delay, max_duration, (attempt + 1) as nat);
    }
}

} // verus!
