//! The generator's state and its one transition.
//!
//! A request for an identifier shows the generator one clock reading after
//! another. A reading either issues the identifier or has to be waited out:
//! the clock is behind the last timestamp, or the millisecond of the last
//! timestamp has no sequence number left. Nothing here reads a clock, so every
//! function is a function of its arguments.

use vstd::prelude::*;
use crate::error::ConfigError;
use crate::layout::{format_snowflake, snowflake, worker_id_of, SEQUENCE_MASK, WORKER_ID_MASK};
use crate::layout::{lemma_fields_of_snowflake, lemma_order, lemma_snowflake_bound};
use crate::metrics::{bump, bump_by, Metrics};

verus! {

/// A generator's state as three numbers.
pub struct GeneratorModel {
    /// The worker that the generator runs as.
    pub worker_id: nat,
    /// The sequence number of the identifier issued last.
    pub sequence: nat,
    /// The timestamp of the identifier issued last.
    pub last_timestamp: nat,
}

/// What a request is waiting for.
#[derive(Clone, Copy, Debug, PartialEq, Eq)]
pub enum Wait {
    /// For the clock to reach the last timestamp again.
    ClockBehind,
    /// For the clock to pass the last timestamp, whose sequence is used up.
    SequenceExhausted,
}

/// What one clock reading did for a request.
#[derive(Clone, Copy, Debug, PartialEq, Eq)]
pub enum Step {
    /// The identifier was issued.
    Issued(u64),
    /// The reading has to be waited out.
    Waiting(Wait),
}

impl GeneratorModel {
    /// The fields that have a width fit it.
    pub open spec fn wf(self) -> bool {
        self.worker_id <= 0x3FF && self.sequence <= 0xFFF
    }

    /// The identifier that stands for the state: the one issued last, once one
    /// was issued.
    pub open spec fn current_id(self) -> nat {
        snowflake(self.worker_id, self.sequence, self.last_timestamp)
    }

    /// A reading issues an identifier when it is past the last timestamp, or
    /// equal to it with a sequence number left.
    pub open spec fn accepts(self, now: nat) -> bool {
        now > self.last_timestamp || (now == self.last_timestamp && self.sequence < 0xFFF)
    }

    /// The state accepts every reading: no clock can make a request wait. That
    /// is so at the start of a process, with the last timestamp at zero.
    pub open spec fn accepts_any(self) -> bool {
        self.last_timestamp == 0 && self.sequence < 0xFFF
    }

    /// The state after an accepted reading: the next sequence number in the
    /// same millisecond, sequence number zero in a new one.
    pub open spec fn issue(self, now: nat) -> GeneratorModel {
        GeneratorModel {
            worker_id: self.worker_id,
            sequence: if now == self.last_timestamp {
                self.sequence + 1
            } else {
                0
            },
            last_timestamp: now,
        }
    }

    /// The state after any reading: one that is not accepted changes nothing.
    pub open spec fn after(self, now: nat) -> GeneratorModel {
        if self.accepts(now) {
            self.issue(now)
        } else {
            self
        }
    }

    /// What a request that is in the given wait learns from a reading. A
    /// request that waits for an exhausted millisecond to pass keeps doing so
    /// even when the clock falls behind.
    pub open spec fn decide(self, waiting: Option<Wait>, now: nat) -> Step {
        if self.accepts(now) {
            Step::Issued(self.issue(now).current_id() as u64)
        } else if waiting == Some(Wait::SequenceExhausted) || now >= self.last_timestamp {
            Step::Waiting(Wait::SequenceExhausted)
        } else {
            Step::Waiting(Wait::ClockBehind)
        }
    }

    /// The metrics after a reading: an issued identifier is counted, and so is
    /// a request that finds its millisecond used up, once, when it starts to wait.
    pub open spec fn report(self, metrics: Metrics, waiting: Option<Wait>, now: nat) -> Metrics {
        if self.accepts(now) {
            metrics.issued(self.issue(now).sequence as u64)
        } else if waiting != Some(Wait::SequenceExhausted) && now >= self.last_timestamp {
            metrics.exhausted()
        } else {
            metrics
        }
    }

    /// The reading falls in the millisecond of the last timestamp, whose
    /// sequence is used up.
    pub open spec fn exhausted_at(self, now: nat) -> bool {
        !self.accepts(now) && now >= self.last_timestamp
    }

    /// One of the readings falls in the millisecond of the last timestamp,
    /// whose sequence is used up.
    pub open spec fn exhausted_in(self, readings: Seq<nat>) -> bool {
        exists|i: int| 0 <= i < readings.len() && self.exhausted_at(#[trigger] readings[i])
    }

    /// The (timestamp, sequence) pair of `self` is below that of `other`.
    pub open spec fn precedes(self, other: GeneratorModel) -> bool {
        self.last_timestamp < other.last_timestamp || (self.last_timestamp == other.last_timestamp
            && self.sequence < other.sequence)
    }

    /// The state after a run of readings, each taken as `after` takes it.
    pub open spec fn run(self, readings: Seq<nat>) -> GeneratorModel
        decreases readings.len(),
    {
        if readings.len() == 0 {
            self
        } else {
            self.run(readings.drop_last()).after(readings.last())
        }
    }

    /// The identifiers that a run of readings issues, in the order of issue.
    pub open spec fn issued(self, readings: Seq<nat>) -> Seq<nat>
        decreases readings.len(),
    {
        if readings.len() == 0 {
            Seq::empty()
        } else {
            let before = self.run(readings.drop_last());
            let earlier = self.issued(readings.drop_last());
            if before.accepts(readings.last()) {
                earlier.push(before.issue(readings.last()).current_id())
            } else {
                earlier
            }
        }
    }

    /// The wait that the request under way is in after a run of readings. A
    /// request begins with the run, and a new one after each reading that
    /// issues an identifier.
    pub open spec fn pending(self, readings: Seq<nat>) -> Option<Wait>
        decreases readings.len(),
    {
        if readings.len() == 0 {
            None
        } else {
            let before = self.run(readings.drop_last());
            match before.decide(self.pending(readings.drop_last()), readings.last()) {
                Step::Issued(_) => None,
                Step::Waiting(wait) => Some(wait),
            }
        }
    }

    /// The metrics after a run of readings, each reported as `report` reports
    /// it to the request under way.
    pub open spec fn reported(self, metrics: Metrics, readings: Seq<nat>) -> Metrics
        decreases readings.len(),
    {
        if readings.len() == 0 {
            metrics
        } else {
            self.run(readings.drop_last()).report(
                self.reported(metrics, readings.drop_last()),
                self.pending(readings.drop_last()),
                readings.last(),
            )
        }
    }
}

/// Each element is below all that follow it.
pub open spec fn increasing(ids: Seq<nat>) -> bool {
    forall|i: int, j: int| 0 <= i < j < ids.len() ==> ids[i] < ids[j]
}

impl GeneratorModel {
    /// A state accepts every reading exactly when its last timestamp is zero
    /// and a sequence number is left.
    pub proof fn lemma_accepts_any(self)
        ensures
            self.accepts_any() <==> forall|now: nat| self.accepts(now),
    {
        if !self.accepts_any() {
            assert(!self.accepts(0));
        }
    }

    /// A reading keeps the worker and the widths, and never moves the last
    /// timestamp back; an accepted one moves the (timestamp, sequence) pair up.
    pub proof fn lemma_after(self, now: nat)
        requires
            self.wf(),
        ensures
            self.after(now).wf(),
            self.after(now).worker_id == self.worker_id,
            self.last_timestamp <= self.after(now).last_timestamp,
            self.accepts(now) ==> self.precedes(self.after(now)),
            !self.accepts(now) ==> self.after(now) == self,
    {
    }

    /// A run keeps the worker and the widths, and never moves the last
    /// timestamp back.
    pub proof fn lemma_run(self, readings: Seq<nat>)
        requires
            self.wf(),
        ensures
            self.run(readings).wf(),
            self.run(readings).worker_id == self.worker_id,
            self.last_timestamp <= self.run(readings).last_timestamp,
            self.issued(readings).len() <= readings.len(),
        decreases readings.len(),
    {
        if readings.len() > 0 {
            self.lemma_run(readings.drop_last());
            self.run(readings.drop_last()).lemma_after(readings.last());
        }
    }

    /// Two runs, one after the other, are one run of the readings joined: the
    /// requests that a generator serves one after another form a single run.
    pub proof fn lemma_run_joined(self, first: Seq<nat>, second: Seq<nat>)
        ensures
            self.run(first + second) == self.run(first).run(second),
            self.issued(first + second) == self.issued(first) + self.run(first).issued(second),
        decreases second.len(),
    {
        if second.len() > 0 {
            let shorter = second.drop_last();
            self.lemma_run_joined(first, shorter);
            assert((first + second).drop_last() =~= first + shorter);
            let before = self.run(first).run(shorter);
            if before.accepts(second.last()) {
                let id = before.issue(second.last()).current_id();
                assert((self.issued(first) + self.run(first).issued(shorter)).push(id)
                    =~= self.issued(first) + self.run(first).issued(shorter).push(id));
            }
        }
    }

    /// Where the first of two runs ends with its last request served, the
    /// second goes on as a run of its own: its requests wait and report as
    /// they would from the state and the metrics that the first run left.
    pub proof fn lemma_requests_joined(self, metrics: Metrics, first: Seq<nat>, second: Seq<nat>)
        requires
            self.pending(first) is None,
        ensures
            self.pending(first + second) == self.run(first).pending(second),
            self.reported(metrics, first + second) == self.run(first).reported(
                self.reported(metrics, first),
                second,
            ),
        decreases second.len(),
    {
        if second.len() > 0 {
            let shorter = second.drop_last();
            self.lemma_requests_joined(metrics, first, shorter);
            self.lemma_run_joined(first, shorter);
            assert((first + second).drop_last() =~= first + shorter);
        }
    }

    /// Readings that are all waited out leave the state as it is and issue
    /// nothing. The request is then in a wait, for the exhausted millisecond
    /// to pass if one of the readings fell into it, and that is reported
    /// once, however many readings there are.
    pub proof fn lemma_waited(self, metrics: Metrics, readings: Seq<nat>)
        requires
            forall|i: int| 0 <= i < readings.len() ==> !self.accepts(#[trigger] readings[i]),
        ensures
            self.run(readings) == self,
            self.issued(readings) == Seq::<nat>::empty(),
            self.pending(readings) == if readings.len() == 0 {
                None
            } else if self.exhausted_in(readings) {
                Some(Wait::SequenceExhausted)
            } else {
                Some(Wait::ClockBehind)
            },
            self.reported(metrics, readings) == if self.exhausted_in(readings) {
                metrics.exhausted()
            } else {
                metrics
            },
        decreases readings.len(),
    {
        if readings.len() > 0 {
            let shorter = readings.drop_last();
            self.lemma_waited(metrics, shorter);
            self.lemma_exhausted_in(shorter, readings.last());
            assert(shorter.push(readings.last()) =~= readings);
        }
    }

    /// A reading more falls into the exhausted millisecond where one of the
    /// earlier did, or the new one does.
    pub proof fn lemma_exhausted_in(self, readings: Seq<nat>, now: nat)
        ensures
            self.exhausted_in(readings.push(now)) <==> self.exhausted_in(readings)
                || self.exhausted_at(now),
    {
        let longer = readings.push(now);
        if self.exhausted_in(readings) {
            let i = choose|i: int| 0 <= i < readings.len() && self.exhausted_at(#[trigger] readings[i]);
            assert(self.exhausted_at(longer[i]));
        }
        if self.exhausted_at(now) {
            assert(self.exhausted_at(longer[readings.len() as int]));
        }
    }

    /// One request, from its first reading to its last, with every reading
    /// before the last waited out: the state moves by the last reading alone,
    /// and the used-up sequence is reported exactly once if a reading fell
    /// into the exhausted millisecond, and not at all if none did.
    pub proof fn lemma_request(self, metrics: Metrics, readings: Seq<nat>)
        requires
            self.wf(),
            readings.len() > 0,
            forall|i: int| 0 <= i < readings.len() - 1 ==> !self.accepts(#[trigger] readings[i]),
        ensures
            self.run(readings) == self.after(readings.last()),
            self.issued(readings) == if self.accepts(readings.last()) {
                seq![self.issue(readings.last()).current_id()]
            } else {
                Seq::<nat>::empty()
            },
            self.pending(readings) is None <==> self.accepts(readings.last()),
            self.reported(metrics, readings).sequence_exhausted_total == if self.exhausted_in(
                readings,
            ) {
                bump(metrics.sequence_exhausted_total)
            } else {
                metrics.sequence_exhausted_total
            },
    {
        let shorter = readings.drop_last();
        assert(shorter.push(readings.last()) =~= readings);
        self.lemma_waited(metrics, shorter);
        self.lemma_exhausted_in(shorter, readings.last());
    }

    /// What a run reports: each identifier issued is counted, the sequence
    /// gauge shows the sequence number of the last, the fixed gauges stay,
    /// and the count of used-up sequences does not fall.
    pub proof fn lemma_reported(self, metrics: Metrics, readings: Seq<nat>)
        requires
            self.wf(),
        ensures
            self.reported(metrics, readings).ids_generated_total == bump_by(
                metrics.ids_generated_total,
                self.issued(readings).len(),
            ),
            self.reported(metrics, readings).current_sequence == if self.issued(readings).len()
                > 0 {
                self.run(readings).sequence as u64
            } else {
                metrics.current_sequence
            },
            self.reported(metrics, readings).worker_id == metrics.worker_id,
            self.reported(metrics, readings).max_sequence_per_ms == metrics.max_sequence_per_ms,
            metrics.sequence_exhausted_total <= self.reported(
                metrics,
                readings,
            ).sequence_exhausted_total,
        decreases readings.len(),
    {
        if readings.len() > 0 {
            self.lemma_reported(metrics, readings.drop_last());
            self.lemma_run(readings.drop_last());
        }
    }

    proof fn lemma_run_ordered(self, readings: Seq<nat>)
        requires
            self.wf(),
            self.run(readings).last_timestamp <= 0x1FF_FFFF_FFFF,
        ensures
            increasing(self.issued(readings)),
            forall|i: int|
                0 <= i < self.issued(readings).len() ==> self.current_id()
                    < #[trigger] self.issued(readings)[i],
            self.issued(readings).len() == 0 ==> self.run(readings) == self,
            self.issued(readings).len() > 0 ==> self.issued(readings).last() == self.run(
                readings,
            ).current_id(),
        decreases readings.len(),
    {
        if readings.len() > 0 {
            let shorter = readings.drop_last();
            let now = readings.last();
            let before = self.run(shorter);
            let earlier = self.issued(shorter);
            self.lemma_run(shorter);
            before.lemma_after(now);
            self.lemma_run_ordered(shorter);
            if before.accepts(now) {
                let next = before.issue(now);
                lemma_order(
                    self.worker_id,
                    before.sequence,
                    before.last_timestamp,
                    next.sequence,
                    next.last_timestamp,
                );
            }
        }
    }

    /// Identifiers come out in strictly increasing order, and above the
    /// identifier that stands for the state before the run, as long as the
    /// timestamps fit their 41 bits.
    pub proof fn lemma_issued_increasing(self, readings: Seq<nat>)
        requires
            self.wf(),
            self.run(readings).last_timestamp <= 0x1FF_FFFF_FFFF,
        ensures
            increasing(self.issued(readings)),
            forall|i: int|
                0 <= i < self.issued(readings).len() ==> self.current_id()
                    < #[trigger] self.issued(readings)[i],
    {
        self.lemma_run_ordered(readings);
    }

    /// No identifier is issued twice, as long as the timestamps fit their 41
    /// bits.
    pub proof fn lemma_issued_distinct(self, readings: Seq<nat>)
        requires
            self.wf(),
            self.run(readings).last_timestamp <= 0x1FF_FFFF_FFFF,
        ensures
            self.issued(readings).no_duplicates(),
    {
        self.lemma_run_ordered(readings);
    }

    /// Every identifier carries the worker of the generator that issued it,
    /// and fits in 63 bits.
    pub proof fn lemma_issued_worker(self, readings: Seq<nat>)
        requires
            self.wf(),
        ensures
            forall|i: int|
                0 <= i < self.issued(readings).len() ==> worker_id_of(
                    #[trigger] self.issued(readings)[i],
                ) == self.worker_id && self.issued(readings)[i] < 0x8000_0000_0000_0000,
        decreases readings.len(),
    {
        if readings.len() > 0 {
            let shorter = readings.drop_last();
            let before = self.run(shorter);
            self.lemma_run(shorter);
            self.lemma_issued_worker(shorter);
            if before.accepts(readings.last()) {
                let next = before.issue(readings.last());
                lemma_fields_of_snowflake(next.worker_id, next.sequence, next.last_timestamp);
                lemma_snowflake_bound(next.worker_id, next.sequence, next.last_timestamp);
            }
        }
    }
}

/// The state of one generator. It is changed through `observe` alone, which
/// takes it by `&mut`: two requests cannot interleave their readings.
#[derive(Debug)]
pub struct GeneratorState {
    worker_id: u64,
    sequence: u64,
    last_timestamp: u64,
}

impl View for GeneratorState {
    type V = GeneratorModel;

    closed spec fn view(&self) -> GeneratorModel {
        GeneratorModel {
            worker_id: self.worker_id as nat,
            sequence: self.sequence as nat,
            last_timestamp: self.last_timestamp as nat,
        }
    }
}

impl GeneratorState {
    #[verifier::type_invariant]
    spec fn fields_fit(self) -> bool {
        self.worker_id <= WORKER_ID_MASK && self.sequence <= SEQUENCE_MASK
    }

    /// The state at the start of a process: nothing issued, sequence number
    /// and last timestamp zero. A worker identifier above 1023 is refused.
    pub fn new(worker_id: u64) -> (res: Result<GeneratorState, ConfigError>)
        ensures
            match res {
                Ok(state) => worker_id <= 0x3FF && state@ == (GeneratorModel {
                    worker_id: worker_id as nat,
                    sequence: 0,
                    last_timestamp: 0,
                }),
                Err(e) => worker_id > 0x3FF && e == ConfigError::OutOfRange,
            },
    {
        GeneratorState::resume(worker_id, 0, 0)
    }

    /// A state with all three fields given. A worker identifier above 1023 or
    /// a sequence number above 4095 is refused.
    pub fn resume(worker_id: u64, sequence: u64, last_timestamp: u64) -> (res: Result<
        GeneratorState,
        ConfigError,
    >)
        ensures
            match res {
                Ok(state) => worker_id <= 0x3FF && sequence <= 0xFFF && state@ == (GeneratorModel {
                    worker_id: worker_id as nat,
                    sequence: sequence as nat,
                    last_timestamp: last_timestamp as nat,
                }),
                Err(e) => (worker_id > 0x3FF || sequence > 0xFFF) && e == ConfigError::OutOfRange,
            },
    {
        if worker_id > WORKER_ID_MASK || sequence > SEQUENCE_MASK {
            Err(ConfigError::OutOfRange)
        } else {
            Ok(GeneratorState { worker_id, sequence, last_timestamp })
        }
    }

    /// Does nothing when it runs. It shows the verifier, in a module that
    /// cannot see the fields, that they fit their widths.
    pub fn fits(&self)
        ensures
            self@.wf(),
    {
        proof {
            use_type_invariant(self);
        }
    }

    /// The worker that the generator runs as.
    pub fn worker_id(&self) -> (worker_id: u64)
        ensures
            worker_id == self@.worker_id,
            self@.wf(),
    {
        proof {
            use_type_invariant(self);
        }
        self.worker_id
    }

    /// The sequence number of the identifier issued last.
    pub fn sequence(&self) -> (sequence: u64)
        ensures
            sequence == self@.sequence,
            self@.wf(),
    {
        proof {
            use_type_invariant(self);
        }
        self.sequence
    }

    /// The timestamp of the identifier issued last.
    pub fn last_timestamp(&self) -> (last_timestamp: u64)
        ensures
            last_timestamp == self@.last_timestamp,
            self@.wf(),
    {
        proof {
            use_type_invariant(self);
        }
        self.last_timestamp
    }

    /// Shows the generator one clock reading on behalf of a request that is
    /// in the given wait (`None` for a request that has not waited yet).
    /// The state changes only when the identifier is issued.
    pub fn observe(&mut self, metrics: &mut Metrics, waiting: Option<Wait>, now: u64) -> (step:
        Step)
        ensures
            old(self)@.wf(),
            final(self)@.wf(),
            step == old(self)@.decide(waiting, now as nat),
            final(self)@ == old(self)@.after(now as nat),
            *final(metrics) == old(self)@.report(*old(metrics), waiting, now as nat),
    {
        proof {
            use_type_invariant(&*self);
        }
        if now > self.last_timestamp || (now == self.last_timestamp && self.sequence
            < SEQUENCE_MASK) {
            let sequence: u64 = if now == self.last_timestamp {
                self.sequence + 1
            } else {
                0
            };
            self.sequence = sequence;
            self.last_timestamp = now;
            metrics.record_issued(sequence);
            Step::Issued(format_snowflake(self.worker_id, sequence, now))
        } else if now < self.last_timestamp {
            match waiting {
                Some(Wait::SequenceExhausted) => Step::Waiting(Wait::SequenceExhausted),
                _ => Step::Waiting(Wait::ClockBehind),
            }
        } else {
            match waiting {
                Some(Wait::SequenceExhausted) => {},
                _ => {
                    metrics.record_exhausted();
                },
            }
            Step::Waiting(Wait::SequenceExhausted)
        }
    }
}

} // verus!
